//! What a client reads of a reply.
//!
//! A result is read from its bytes alone: numbers at fixed places where the
//! layout is fixed, and one item behind the other where it is not. The laws here
//! say that what is written is read as what was meant.
use crate::nfs::{
    fattr3, fsinfo3, fsstat3, ftype3, nfsstat3, nfstime3, post_op_attr, pre_op_attr,
    present_handle, specdata3, stable_how, wcc_attr, wcc_data,
};
use crate::nfs_args::{
    parse_sattr3, parse_sattrguard3, sattr3, sattr3_round_trip, sattrguard3,
    sattrguard3_round_trip, set_atime, set_gid3, set_mode3, set_mtime, set_size3, set_uid3,
};
use crate::nfs_handlers::change::{link_reply, rename_reply};
use crate::nfs_handlers::fs::pathconf_reply;
use crate::nfs_handlers::inspect::{lookup_reply, read_reply};
use crate::nfs_handlers::write::write_reply;
use crate::nfs_handlers::{attr_reply, created_reply, lost_reply, stat_reply, wcc_reply};
use crate::rpc::{
    auth_flavor, auth_unixView, garbage_args_reply, parse_auth_unix, parse_rpc_msg, parse_u32s,
    proc_unavail_reply, prog_mismatch_reply, prog_unavail_reply, rpc_mismatch_reply, success_reply,
};
use crate::vfs::WriteResult;
use crate::xdr::{
    opaque_round_trip, parse_opaque, parse_u32, u32_at_front, u32_round_trip, u64_at_front,
    u64_round_trip, xdr_bool, xdr_opaque, xdr_u32, xdr_u64, Parsed, XdrError,
};
use vstd::prelude::*;

verus! {

// ---------------------------------------------------------------------- places

/// The number in the four bytes from a place on.
pub open spec fn word(s: Seq<u8>, at: int) -> u32 {
    u32_at_front(s.skip(at))
}

/// The number in the eight bytes from a place on.
pub open spec fn long(s: Seq<u8>, at: int) -> u64 {
    u64_at_front(s.skip(at))
}

pub broadcast proof fn word_in_front(a: Seq<u8>, b: Seq<u8>, at: int)
    requires
        0 <= at,
        at + 4 <= a.len(),
    ensures
        #[trigger] word(a + b, at) == word(a, at),
{
    reveal(u32_at_front);
    assert((a + b).skip(at).take(4) =~= a.skip(at).take(4));
    assert forall|i: int| 0 <= i < 4 implies (a + b).skip(at)[i] == #[trigger] a.skip(at)[i] by {}
}

pub broadcast proof fn word_behind(a: Seq<u8>, b: Seq<u8>, at: int)
    requires
        a.len() <= at <= a.len() + b.len(),
    ensures
        #[trigger] word(a + b, at) == word(b, at - a.len()),
{
    assert((a + b).skip(at) =~= b.skip(at - a.len()));
}

pub broadcast proof fn word_written(n: u32, at: int)
    requires
        at == 0,
    ensures
        #[trigger] word(xdr_u32(n), at) == n,
{
    u32_round_trip(n, Seq::empty());
    assert(xdr_u32(n) + Seq::<u8>::empty() =~= xdr_u32(n));
    assert(xdr_u32(n).skip(0) =~= xdr_u32(n));
}

pub broadcast proof fn long_in_front(a: Seq<u8>, b: Seq<u8>, at: int)
    requires
        0 <= at,
        at + 8 <= a.len(),
    ensures
        #[trigger] long(a + b, at) == long(a, at),
{
    reveal(u64_at_front);
    word_in_front(a, b, at);
    word_in_front(a, b, at + 4);
    assert((a + b).skip(at).skip(4) =~= (a + b).skip(at + 4));
    assert(a.skip(at).skip(4) =~= a.skip(at + 4));
}

pub broadcast proof fn long_behind(a: Seq<u8>, b: Seq<u8>, at: int)
    requires
        a.len() <= at <= a.len() + b.len(),
    ensures
        #[trigger] long(a + b, at) == long(b, at - a.len()),
{
    assert((a + b).skip(at) =~= b.skip(at - a.len()));
}

pub broadcast proof fn long_written(n: u64, at: int)
    requires
        at == 0,
    ensures
        #[trigger] long(xdr_u64(n), at) == n,
{
    broadcast use crate::xdr::group_xdr_lengths;

    u64_round_trip(n, Seq::empty());
    assert(xdr_u64(n) + Seq::<u8>::empty() =~= xdr_u64(n));
    assert(xdr_u64(n).skip(0) =~= xdr_u64(n));
}

pub broadcast group group_places {
    word_in_front,
    word_behind,
    word_written,
    long_in_front,
    long_behind,
    long_written,
    crate::xdr::xdr_u32_length,
    crate::xdr::xdr_u64_length,
}

// --------------------------------------------------------------------- numbers

/// The status that a number on the wire stands for.
pub open spec fn status_of_number(n: u32) -> Option<nfsstat3> {
    if n == 0 {
        Some(nfsstat3::NFS3_OK)
    } else if n == 1 {
        Some(nfsstat3::NFS3ERR_PERM)
    } else if n == 2 {
        Some(nfsstat3::NFS3ERR_NOENT)
    } else if n == 5 {
        Some(nfsstat3::NFS3ERR_IO)
    } else if n == 6 {
        Some(nfsstat3::NFS3ERR_NXIO)
    } else if n == 13 {
        Some(nfsstat3::NFS3ERR_ACCES)
    } else if n == 17 {
        Some(nfsstat3::NFS3ERR_EXIST)
    } else if n == 18 {
        Some(nfsstat3::NFS3ERR_XDEV)
    } else if n == 19 {
        Some(nfsstat3::NFS3ERR_NODEV)
    } else if n == 20 {
        Some(nfsstat3::NFS3ERR_NOTDIR)
    } else if n == 21 {
        Some(nfsstat3::NFS3ERR_ISDIR)
    } else if n == 22 {
        Some(nfsstat3::NFS3ERR_INVAL)
    } else if n == 27 {
        Some(nfsstat3::NFS3ERR_FBIG)
    } else if n == 28 {
        Some(nfsstat3::NFS3ERR_NOSPC)
    } else if n == 30 {
        Some(nfsstat3::NFS3ERR_ROFS)
    } else if n == 31 {
        Some(nfsstat3::NFS3ERR_MLINK)
    } else if n == 63 {
        Some(nfsstat3::NFS3ERR_NAMETOOLONG)
    } else if n == 66 {
        Some(nfsstat3::NFS3ERR_NOTEMPTY)
    } else if n == 69 {
        Some(nfsstat3::NFS3ERR_DQUOT)
    } else if n == 70 {
        Some(nfsstat3::NFS3ERR_STALE)
    } else if n == 71 {
        Some(nfsstat3::NFS3ERR_REMOTE)
    } else if n == 10001 {
        Some(nfsstat3::NFS3ERR_BADHANDLE)
    } else if n == 10002 {
        Some(nfsstat3::NFS3ERR_NOT_SYNC)
    } else if n == 10003 {
        Some(nfsstat3::NFS3ERR_BAD_COOKIE)
    } else if n == 10004 {
        Some(nfsstat3::NFS3ERR_NOTSUPP)
    } else if n == 10005 {
        Some(nfsstat3::NFS3ERR_TOOSMALL)
    } else if n == 10006 {
        Some(nfsstat3::NFS3ERR_SERVERFAULT)
    } else if n == 10007 {
        Some(nfsstat3::NFS3ERR_BADTYPE)
    } else if n == 10008 {
        Some(nfsstat3::NFS3ERR_JUKEBOX)
    } else {
        None
    }
}

/// The type of file that a number on the wire stands for.
pub open spec fn type_of_number(n: u32) -> Option<ftype3> {
    if n == 1 {
        Some(ftype3::NF3REG)
    } else if n == 2 {
        Some(ftype3::NF3DIR)
    } else if n == 3 {
        Some(ftype3::NF3BLK)
    } else if n == 4 {
        Some(ftype3::NF3CHR)
    } else if n == 5 {
        Some(ftype3::NF3LNK)
    } else if n == 6 {
        Some(ftype3::NF3SOCK)
    } else if n == 7 {
        Some(ftype3::NF3FIFO)
    } else {
        None
    }
}

/// The stability that a number on the wire stands for.
pub open spec fn stability_of_number(n: u32) -> Option<stable_how> {
    if n == 0 {
        Some(stable_how::UNSTABLE)
    } else if n == 1 {
        Some(stable_how::DATA_SYNC)
    } else if n == 2 {
        Some(stable_how::FILE_SYNC)
    } else {
        None
    }
}

/// The numbers that the server writes for statuses, types of files and
/// stabilities are the ones that clients know, and it knows those of clients.
pub proof fn lemma_numbers_are_known(
    stat: nfsstat3,
    ftype: ftype3,
    how: stable_how,
    n: u32,
)
    ensures
        status_of_number(stat.number()) == Some(stat),
        type_of_number(ftype.number()) == Some(ftype),
        stability_of_number(how.number()) == Some(how),
        ftype3::of_number(n) == type_of_number(n),
        stable_how::of_number(n) == stability_of_number(n),
{
}

// ----------------------------------------------------------------- attributes

/// The time at a place.
pub open spec fn time_at(s: Seq<u8>, at: int) -> nfstime3 {
    nfstime3 { seconds: word(s, at), nseconds: word(s, at + 4) }
}

/// The attributes of a file: eighty-four bytes with each number at its place.
#[verifier::opaque]
pub open spec fn parse_fattr3(s: Seq<u8>) -> Parsed<fattr3> {
    if s.len() < 84 {
        Err(XdrError::UnexpectedEof)
    } else {
        match type_of_number(word(s, 0)) {
            None => Err(XdrError::InvalidEnum),
            Some(ftype) => Ok(
                (
                    fattr3 {
                        ftype,
                        mode: word(s, 4),
                        nlink: word(s, 8),
                        uid: word(s, 12),
                        gid: word(s, 16),
                        size: long(s, 20),
                        used: long(s, 28),
                        rdev: specdata3 { specdata1: word(s, 36), specdata2: word(s, 40) },
                        fsid: long(s, 44),
                        fileid: long(s, 52),
                        atime: time_at(s, 60),
                        mtime: time_at(s, 68),
                        ctime: time_at(s, 76),
                    },
                    s.skip(84),
                ),
            ),
        }
    }
}

/// The attributes of a file are read as they were written.
pub broadcast proof fn fattr3_is_read(a: fattr3, rest: Seq<u8>)
    ensures
        #[trigger] parse_fattr3(a.encoding() + rest) == Ok::<(fattr3, Seq<u8>), XdrError>(
            (a, rest),
        ),
{
    broadcast use group_places;

    reveal(parse_fattr3);
    let s = a.encoding() + rest;
    assert(a.encoding().len() == 84);
    assert(s.skip(84) =~= rest);
    lemma_numbers_are_known(nfsstat3::NFS3_OK, a.ftype, stable_how::UNSTABLE, 0);
    assert(word(s, 0) == a.ftype.number());
    assert(word(s, 4) == a.mode);
    assert(word(s, 8) == a.nlink);
    assert(word(s, 12) == a.uid);
    assert(word(s, 16) == a.gid);
    assert(long(s, 20) == a.size);
    assert(long(s, 28) == a.used);
    assert(word(s, 36) == a.rdev.specdata1);
    assert(word(s, 40) == a.rdev.specdata2);
    assert(long(s, 44) == a.fsid);
    assert(long(s, 52) == a.fileid);
    assert(word(s, 60) == a.atime.seconds);
    assert(word(s, 64) == a.atime.nseconds);
    assert(word(s, 68) == a.mtime.seconds);
    assert(word(s, 72) == a.mtime.nseconds);
    assert(word(s, 76) == a.ctime.seconds);
    assert(word(s, 80) == a.ctime.nseconds);
}

/// A flag, and behind it the attributes if it is set.
pub open spec fn parse_post_op_attr(s: Seq<u8>) -> Parsed<post_op_attr> {
    match parse_u32(s) {
        Err(e) => Err(e),
        Ok((flag, s)) => if flag == 0 {
            Ok((post_op_attr::Void, s))
        } else {
            match parse_fattr3(s) {
                Err(e) => Err(e),
                Ok((a, s)) => Ok((post_op_attr::attributes(a), s)),
            }
        },
    }
}

/// A flag, and behind it size, time of modification and time of change if it is
/// set.
pub open spec fn parse_pre_op_attr(s: Seq<u8>) -> Parsed<pre_op_attr> {
    match parse_u32(s) {
        Err(e) => Err(e),
        Ok((flag, s)) => if flag == 0 {
            Ok((pre_op_attr::Void, s))
        } else if s.len() < 24 {
            Err(XdrError::UnexpectedEof)
        } else {
            Ok(
                (
                    pre_op_attr::attributes(
                        wcc_attr { size: long(s, 0), mtime: time_at(s, 8), ctime: time_at(s, 16) },
                    ),
                    s.skip(24),
                ),
            )
        },
    }
}

/// What is told of an object: before the operation, then after it.
pub open spec fn parse_wcc_data(s: Seq<u8>) -> Parsed<wcc_data> {
    match parse_pre_op_attr(s) {
        Err(e) => Err(e),
        Ok((before, s)) => match parse_post_op_attr(s) {
            Err(e) => Err(e),
            Ok((after, s)) => Ok((wcc_data { before, after }, s)),
        },
    }
}

/// Concatenation, grouped to the right.
pub broadcast proof fn regroup(a: Seq<u8>, b: Seq<u8>, c: Seq<u8>)
    ensures
        #[trigger] ((a + b) + c) == a + (b + c),
{
    assert(((a + b) + c) =~= a + (b + c));
}

/// Attributes that may be absent are read as they were written.
pub broadcast proof fn post_op_attr_is_read(a: post_op_attr, rest: Seq<u8>)
    ensures
        #[trigger] parse_post_op_attr(a.encoding() + rest) == Ok::<
            (post_op_attr, Seq<u8>),
            XdrError,
        >((a, rest)),
{
    match a {
        post_op_attr::Void => {
            u32_round_trip(0, rest);
        },
        post_op_attr::attributes(f) => {
            regroup(xdr_bool(true), f.encoding(), rest);
            u32_round_trip(1, f.encoding() + rest);
            fattr3_is_read(f, rest);
        },
    }
}

/// Attributes from before an operation are read as they were written.
pub broadcast proof fn pre_op_attr_is_read(a: pre_op_attr, rest: Seq<u8>)
    ensures
        #[trigger] parse_pre_op_attr(a.encoding() + rest) == Ok::<
            (pre_op_attr, Seq<u8>),
            XdrError,
        >((a, rest)),
{
    match a {
        pre_op_attr::Void => {
            u32_round_trip(0, rest);
        },
        pre_op_attr::attributes(w) => {
            broadcast use group_places;

            regroup(xdr_bool(true), w.encoding(), rest);
            let s = w.encoding() + rest;
            u32_round_trip(1, s);
            assert(w.encoding().len() == 24);
            assert(s.skip(24) =~= rest);
            assert(long(s, 0) == w.size);
            assert(word(s, 8) == w.mtime.seconds);
            assert(word(s, 12) == w.mtime.nseconds);
            assert(word(s, 16) == w.ctime.seconds);
            assert(word(s, 20) == w.ctime.nseconds);
        },
    }
}

/// What is told of an object is read as it was written.
pub broadcast proof fn wcc_data_is_read(w: wcc_data, rest: Seq<u8>)
    ensures
        #[trigger] parse_wcc_data(w.encoding() + rest) == Ok::<(wcc_data, Seq<u8>), XdrError>(
            (w, rest),
        ),
{
    regroup(w.before.encoding(), w.after.encoding(), rest);
    pre_op_attr_is_read(w.before, w.after.encoding() + rest);
    post_op_attr_is_read(w.after, rest);
}

/// The attributes that a client compares are those of the file before the
/// operation: its size and the times of its last modification and change.
pub proof fn lemma_known_attributes(a: fattr3, stat: nfsstat3)
    ensures
        pre_op_attr::of_getattr(Ok(a)) == pre_op_attr::attributes(
            wcc_attr { size: a.size, mtime: a.mtime, ctime: a.ctime },
        ),
        pre_op_attr::of_getattr(Err(stat)) == pre_op_attr::Void,
        post_op_attr::of_getattr(Ok(a)) == post_op_attr::attributes(a),
        post_op_attr::of_getattr(Err(stat)) == post_op_attr::Void,
        wcc_data::unknown() == (wcc_data { before: pre_op_attr::Void, after: post_op_attr::Void }),
{
}

// ----------------------------------------------------------------------- heads

/// The head of a result: the transaction, five words that say that the call was
/// accepted and carried out, and the status.
#[verifier::opaque]
pub open spec fn parse_head(s: Seq<u8>) -> Parsed<(u32, nfsstat3)> {
    if s.len() < 28 {
        Err(XdrError::UnexpectedEof)
    } else if word(s, 4) != 1 || word(s, 8) != 0 || word(s, 12) != 0 || word(s, 16) != 0 || word(
        s,
        20,
    ) != 0 {
        Err(XdrError::InvalidEnum)
    } else {
        match status_of_number(word(s, 24)) {
            None => Err(XdrError::InvalidEnum),
            Some(stat) => Ok(((word(s, 0), stat), s.skip(28))),
        }
    }
}

/// The transaction and the status are read as they were written.
pub broadcast proof fn head_is_read(xid: u32, stat: nfsstat3, body: Seq<u8>)
    ensures
        #[trigger] parse_head(stat_reply(xid, stat) + body) == Ok::<
            ((u32, nfsstat3), Seq<u8>),
            XdrError,
        >(((xid, stat), body)),
{
    broadcast use group_places;

    reveal(parse_head);
    let s = stat_reply(xid, stat) + body;
    assert(stat_reply(xid, stat).len() == 28);
    assert(s.skip(28) =~= body);
    lemma_numbers_are_known(stat, ftype3::NF3REG, stable_how::UNSTABLE, 0);
    assert(word(s, 0) == xid);
    assert(word(s, 4) == 1);
    assert(word(s, 8) == 0);
    assert(word(s, 12) == 0);
    assert(word(s, 16) == 0);
    assert(word(s, 20) == 0);
    assert(word(s, 24) == stat.number());
}

// --------------------------------------------------------------------- results

/// The result is a status alone.
pub open spec fn tells_status(reply: Seq<u8>, xid: u32, stat: nfsstat3) -> bool {
    parse_head(reply) == Ok::<((u32, nfsstat3), Seq<u8>), XdrError>(((xid, stat), Seq::empty()))
}

/// The result is a status and the attributes of a file.
pub open spec fn tells_file(reply: Seq<u8>, xid: u32, stat: nfsstat3, attr: fattr3) -> bool {
    &&& parse_head(reply) matches Ok((head, s))
    &&& head == (xid, stat)
    &&& parse_fattr3(s) == Ok::<(fattr3, Seq<u8>), XdrError>((attr, Seq::empty()))
}

/// The result is a status, attributes that may be absent, and then `rest`.
pub open spec fn tells_attr_and(
    reply: Seq<u8>,
    xid: u32,
    stat: nfsstat3,
    attr: post_op_attr,
    rest: Seq<u8>,
) -> bool {
    &&& parse_head(reply) matches Ok((head, s))
    &&& head == (xid, stat)
    &&& parse_post_op_attr(s) == Ok::<(post_op_attr, Seq<u8>), XdrError>((attr, rest))
}

/// The result is a status and attributes that may be absent.
pub open spec fn tells_attr(reply: Seq<u8>, xid: u32, stat: nfsstat3, attr: post_op_attr) -> bool {
    tells_attr_and(reply, xid, stat, attr, Seq::empty())
}

/// The result is a status, what is known of an object, and then `rest`.
pub open spec fn tells_wcc_and(
    reply: Seq<u8>,
    xid: u32,
    stat: nfsstat3,
    wcc: wcc_data,
    rest: Seq<u8>,
) -> bool {
    &&& parse_head(reply) matches Ok((head, s))
    &&& head == (xid, stat)
    &&& parse_wcc_data(s) == Ok::<(wcc_data, Seq<u8>), XdrError>((wcc, rest))
}

/// The result is a status and what is known of an object.
pub open spec fn tells_wcc(reply: Seq<u8>, xid: u32, stat: nfsstat3, wcc: wcc_data) -> bool {
    tells_wcc_and(reply, xid, stat, wcc, Seq::empty())
}

/// What is known of an object, where the attributes are those of a file before an
/// operation and what was found out after it.
pub open spec fn before_and_after(
    before: Option<fattr3>,
    after: Result<fattr3, nfsstat3>,
) -> wcc_data {
    wcc_data {
        before: match before {
            Some(a) => pre_op_attr::attributes(
                wcc_attr { size: a.size, mtime: a.mtime, ctime: a.ctime },
            ),
            None => pre_op_attr::Void,
        },
        after: known(after),
    }
}

/// Attributes, where they could be found out.
pub open spec fn known(attr: Result<fattr3, nfsstat3>) -> post_op_attr {
    match attr {
        Ok(a) => post_op_attr::attributes(a),
        Err(_) => post_op_attr::Void,
    }
}

/// The attributes that were found out, if they were.
pub open spec fn found(attr: Result<fattr3, nfsstat3>) -> Option<fattr3> {
    match attr {
        Ok(a) => Some(a),
        Err(_) => None,
    }
}

/// Nothing is known of the object.
pub open spec fn nothing_known() -> wcc_data {
    wcc_data { before: pre_op_attr::Void, after: post_op_attr::Void }
}

/// The result is a status and what is known of two objects.
pub open spec fn tells_two(
    reply: Seq<u8>,
    xid: u32,
    stat: nfsstat3,
    first: wcc_data,
    second: wcc_data,
) -> bool {
    &&& parse_head(reply) matches Ok((head, s))
    &&& head == (xid, stat)
    &&& parse_wcc_data(s) matches Ok((one, s))
    &&& one == first
    &&& parse_wcc_data(s) == Ok::<(wcc_data, Seq<u8>), XdrError>((second, Seq::empty()))
}

/// The result is a status, the attributes of a file, and what is known of a
/// directory.
pub open spec fn tells_link(
    reply: Seq<u8>,
    xid: u32,
    stat: nfsstat3,
    file: post_op_attr,
    dir: wcc_data,
) -> bool {
    &&& parse_head(reply) matches Ok((head, s))
    &&& head == (xid, stat)
    &&& parse_post_op_attr(s) matches Ok((attr, s))
    &&& attr == file
    &&& parse_wcc_data(s) == Ok::<(wcc_data, Seq<u8>), XdrError>((dir, Seq::empty()))
}

/// The result is that an object was made: a flag that is set, its handle, its
/// attributes, and what is known of its directory.
pub open spec fn tells_made(
    reply: Seq<u8>,
    xid: u32,
    handle: Seq<u8>,
    attr: post_op_attr,
    dir: wcc_data,
) -> bool {
    &&& parse_head(reply) matches Ok((head, s))
    &&& head == (xid, nfsstat3::NFS3_OK)
    &&& parse_u32(s) matches Ok((flag, s))
    &&& flag == 1
    &&& parse_opaque(s) matches Ok((fh, s))
    &&& fh == handle
    &&& parse_post_op_attr(s) matches Ok((a, s))
    &&& a == attr
    &&& parse_wcc_data(s) == Ok::<(wcc_data, Seq<u8>), XdrError>((dir, Seq::empty()))
}

proof fn lemma_nothing_behind(a: Seq<u8>)
    ensures
        a + Seq::<u8>::empty() == a,
{
    assert(a + Seq::<u8>::empty() =~= a);
}

/// A status alone is read as it was written.
pub proof fn lemma_status_is_told(xid: u32, stat: nfsstat3)
    ensures
        tells_status(stat_reply(xid, stat), xid, stat),
{
    lemma_nothing_behind(stat_reply(xid, stat));
    head_is_read(xid, stat, Seq::empty());
}

/// The attributes of a file are read as they were written.
pub proof fn lemma_file_is_told(xid: u32, stat: nfsstat3, attr: fattr3)
    ensures
        tells_file(stat_reply(xid, stat) + attr.encoding(), xid, stat, attr),
{
    lemma_nothing_behind(attr.encoding());
    head_is_read(xid, stat, attr.encoding());
    fattr3_is_read(attr, Seq::empty());
}

/// Attributes are read as they were written, and what follows them.
pub proof fn lemma_attr_is_told(xid: u32, stat: nfsstat3, attr: post_op_attr, rest: Seq<u8>)
    ensures
        tells_attr_and(attr_reply(xid, stat, attr) + rest, xid, stat, attr, rest),
        tells_attr(attr_reply(xid, stat, attr), xid, stat, attr),
{
    regroup(stat_reply(xid, stat), attr.encoding(), rest);
    head_is_read(xid, stat, attr.encoding() + rest);
    post_op_attr_is_read(attr, rest);
    lemma_nothing_behind(attr.encoding());
    head_is_read(xid, stat, attr.encoding());
    post_op_attr_is_read(attr, Seq::empty());
}

/// What is known of an object is read as it was written, and what follows it.
pub proof fn lemma_wcc_is_told(xid: u32, stat: nfsstat3, wcc: wcc_data, rest: Seq<u8>)
    ensures
        tells_wcc_and(wcc_reply(xid, stat, wcc) + rest, xid, stat, wcc, rest),
        tells_wcc(wcc_reply(xid, stat, wcc), xid, stat, wcc),
{
    regroup(stat_reply(xid, stat), wcc.encoding(), rest);
    head_is_read(xid, stat, wcc.encoding() + rest);
    wcc_data_is_read(wcc, rest);
    lemma_nothing_behind(wcc.encoding());
    head_is_read(xid, stat, wcc.encoding());
    wcc_data_is_read(wcc, Seq::empty());
}

/// Where nothing is known of the object, that is what is read.
pub proof fn lemma_loss_is_told(xid: u32, stat: nfsstat3)
    ensures
        tells_wcc(lost_reply(xid, stat), xid, stat, nothing_known()),
{
    lemma_wcc_is_told(xid, stat, nothing_known(), Seq::empty());
}

/// Both objects are read as they were written.
pub proof fn lemma_two_are_told(xid: u32, stat: nfsstat3, first: wcc_data, second: wcc_data)
    ensures
        tells_two(rename_reply(xid, stat, first, second), xid, stat, first, second),
{
    lemma_wcc_is_told(xid, stat, first, second.encoding());
    lemma_nothing_behind(second.encoding());
    wcc_data_is_read(second, Seq::empty());
}

/// The file and the directory of a link are read as they were written.
pub proof fn lemma_link_is_told(xid: u32, stat: nfsstat3, file: post_op_attr, dir: wcc_data)
    ensures
        tells_link(link_reply(xid, stat, file, dir), xid, stat, file, dir),
{
    lemma_attr_is_told(xid, stat, file, dir.encoding());
    lemma_nothing_behind(dir.encoding());
    wcc_data_is_read(dir, Seq::empty());
}

/// A new object is read as it was written.
pub proof fn lemma_made_is_told(xid: u32, handle: Seq<u8>, attr: post_op_attr, dir: wcc_data)
    requires
        handle.len() <= u32::MAX,
    ensures
        tells_made(created_reply(xid, handle, attr, dir), xid, handle, attr, dir),
{
    let front = stat_reply(xid, nfsstat3::NFS3_OK);
    let s3 = dir.encoding();
    let s2 = attr.encoding() + s3;
    let s1 = xdr_opaque(handle) + s2;
    regroup(front + present_handle(handle), attr.encoding(), s3);
    regroup(front, present_handle(handle), s2);
    regroup(xdr_bool(true), xdr_opaque(handle), s2);
    head_is_read(xid, nfsstat3::NFS3_OK, xdr_bool(true) + s1);
    u32_round_trip(1, s1);
    opaque_round_trip(handle, s2);
    post_op_attr_is_read(attr, s3);
    lemma_nothing_behind(s3);
    wcc_data_is_read(dir, Seq::empty());
}

/// The result is a handle, the attributes of its object, and those of the
/// directory.
pub open spec fn tells_found(
    reply: Seq<u8>,
    xid: u32,
    handle: Seq<u8>,
    object: post_op_attr,
    dir: post_op_attr,
) -> bool {
    &&& parse_head(reply) matches Ok((head, s))
    &&& head == (xid, nfsstat3::NFS3_OK)
    &&& parse_opaque(s) matches Ok((fh, s))
    &&& fh == handle
    &&& parse_post_op_attr(s) matches Ok((a, s))
    &&& a == object
    &&& parse_post_op_attr(s) == Ok::<(post_op_attr, Seq<u8>), XdrError>((dir, Seq::empty()))
}

/// The result is the attributes of a file and a number.
pub open spec fn tells_number(reply: Seq<u8>, xid: u32, attr: post_op_attr, n: u32) -> bool {
    &&& parse_head(reply) matches Ok((head, s))
    &&& head == (xid, nfsstat3::NFS3_OK)
    &&& parse_post_op_attr(s) matches Ok((a, s))
    &&& a == attr
    &&& parse_u32(s) == Ok::<(u32, Seq<u8>), XdrError>((n, Seq::empty()))
}

/// The result is the attributes of a link and its path.
pub open spec fn tells_path(reply: Seq<u8>, xid: u32, attr: post_op_attr, path: Seq<u8>) -> bool {
    &&& parse_head(reply) matches Ok((head, s))
    &&& head == (xid, nfsstat3::NFS3_OK)
    &&& parse_post_op_attr(s) matches Ok((a, s))
    &&& a == attr
    &&& parse_opaque(s) == Ok::<(Seq<u8>, Seq<u8>), XdrError>((path, Seq::empty()))
}

/// The result is the attributes of a file, how many bytes were read, whether they
/// reach the end of the file, and the bytes.
pub open spec fn tells_bytes(
    reply: Seq<u8>,
    xid: u32,
    attr: post_op_attr,
    bytes: Seq<u8>,
    eof: bool,
) -> bool {
    &&& parse_head(reply) matches Ok((head, s))
    &&& head == (xid, nfsstat3::NFS3_OK)
    &&& parse_post_op_attr(s) matches Ok((a, s))
    &&& a == attr
    &&& parse_u32(s) matches Ok((count, s))
    &&& count == bytes.len()
    &&& parse_u32(s) matches Ok((end, s))
    &&& end == (if eof {
        1u32
    } else {
        0u32
    })
    &&& parse_opaque(s) == Ok::<(Seq<u8>, Seq<u8>), XdrError>((bytes, Seq::empty()))
}

/// The result is what is known of a file, how many bytes were written, how stable
/// they are, and the eight bytes of the verifier.
pub open spec fn tells_written(
    reply: Seq<u8>,
    xid: u32,
    wcc: wcc_data,
    count: u32,
    committed: stable_how,
    verifier: Seq<u8>,
) -> bool {
    &&& parse_head(reply) matches Ok((head, s))
    &&& head == (xid, nfsstat3::NFS3_OK)
    &&& parse_wcc_data(s) matches Ok((w, s))
    &&& w == wcc
    &&& parse_u32(s) matches Ok((n, s))
    &&& n == count
    &&& parse_u32(s) matches Ok((how, s))
    &&& stability_of_number(how) == Some(committed)
    &&& s == verifier
    &&& s.len() == 8
}

/// The result is what is known of a file and the eight bytes of the verifier.
pub open spec fn tells_committed(
    reply: Seq<u8>,
    xid: u32,
    wcc: wcc_data,
    verifier: Seq<u8>,
) -> bool {
    &&& parse_head(reply) matches Ok((head, s))
    &&& head == (xid, nfsstat3::NFS3_OK)
    &&& parse_wcc_data(s) == Ok::<(wcc_data, Seq<u8>), XdrError>((wcc, verifier))
    &&& verifier.len() == 8
}

/// The result is the attributes of an object and what names it can have: the most
/// links, the longest name, whether longer names are refused, whether owners are
/// kept, whether case is ignored, and whether case is preserved.
pub open spec fn tells_pathconf(
    reply: Seq<u8>,
    xid: u32,
    attr: post_op_attr,
    links: u32,
    longest: u32,
    refused: u32,
    kept: u32,
    ignored: u32,
    preserved: u32,
) -> bool {
    &&& parse_head(reply) matches Ok((head, s))
    &&& head == (xid, nfsstat3::NFS3_OK)
    &&& parse_post_op_attr(s) matches Ok((a, s))
    &&& a == attr
    &&& s.len() == 24
    &&& word(s, 0) == links
    &&& word(s, 4) == longest
    &&& word(s, 8) == refused
    &&& word(s, 12) == kept
    &&& word(s, 16) == ignored
    &&& word(s, 20) == preserved
}

/// The reply is six words: the transaction, that the call was accepted, and zero,
/// or why it was not carried out.
pub open spec fn tells_refusal(reply: Seq<u8>, xid: u32, why: u32) -> bool {
    &&& reply.len() == 24
    &&& word(reply, 0) == xid
    &&& word(reply, 4) == 1
    &&& word(reply, 8) == 0
    &&& word(reply, 12) == 0
    &&& word(reply, 16) == 0
    &&& word(reply, 20) == why
}

/// An object that was looked up is read as it was written.
pub proof fn lemma_found_is_told(
    xid: u32,
    handle: Seq<u8>,
    object: post_op_attr,
    dir: post_op_attr,
)
    requires
        handle.len() <= u32::MAX,
    ensures
        tells_found(lookup_reply(xid, handle, object, dir), xid, handle, object, dir),
{
    let front = stat_reply(xid, nfsstat3::NFS3_OK);
    let s2 = dir.encoding();
    let s1 = object.encoding() + s2;
    regroup(front + xdr_opaque(handle), object.encoding(), s2);
    regroup(front, xdr_opaque(handle), s1);
    head_is_read(xid, nfsstat3::NFS3_OK, xdr_opaque(handle) + s1);
    opaque_round_trip(handle, s1);
    post_op_attr_is_read(object, s2);
    lemma_nothing_behind(s2);
    post_op_attr_is_read(dir, Seq::empty());
}

/// A number behind attributes is read as it was written.
pub proof fn lemma_number_is_told(xid: u32, attr: post_op_attr, n: u32)
    ensures
        tells_number(attr_reply(xid, nfsstat3::NFS3_OK, attr) + xdr_u32(n), xid, attr, n),
{
    lemma_attr_is_told(xid, nfsstat3::NFS3_OK, attr, xdr_u32(n));
    lemma_nothing_behind(xdr_u32(n));
    u32_round_trip(n, Seq::empty());
}

/// The path of a link is read as it was written.
pub proof fn lemma_path_is_told(xid: u32, attr: post_op_attr, path: Seq<u8>)
    requires
        path.len() <= u32::MAX,
    ensures
        tells_path(attr_reply(xid, nfsstat3::NFS3_OK, attr) + xdr_opaque(path), xid, attr, path),
{
    lemma_attr_is_told(xid, nfsstat3::NFS3_OK, attr, xdr_opaque(path));
    lemma_nothing_behind(xdr_opaque(path));
    opaque_round_trip(path, Seq::empty());
}

/// Bytes of a file are read as they were written.
pub proof fn lemma_bytes_are_told(xid: u32, attr: post_op_attr, bytes: Seq<u8>, eof: bool)
    requires
        bytes.len() <= u32::MAX,
    ensures
        tells_bytes(read_reply(xid, attr, bytes, eof), xid, attr, bytes, eof),
{
    let front = attr_reply(xid, nfsstat3::NFS3_OK, attr);
    let count = xdr_u32(bytes.len() as u32);
    let s2 = xdr_opaque(bytes);
    let s1 = xdr_bool(eof) + s2;
    regroup(front + count, xdr_bool(eof), s2);
    regroup(front, count, s1);
    lemma_attr_is_told(xid, nfsstat3::NFS3_OK, attr, count + s1);
    u32_round_trip(bytes.len() as u32, s1);
    u32_round_trip(
        if eof {
            1u32
        } else {
            0u32
        },
        s2,
    );
    lemma_nothing_behind(s2);
    opaque_round_trip(bytes, Seq::empty());
}

/// What was written is told as it is: the count, the stability and the verifier.
pub proof fn lemma_write_is_told(xid: u32, before: pre_op_attr, count: u32, result: WriteResult)
    ensures
        tells_written(
            write_reply(xid, before, count, result),
            xid,
            wcc_data { before, after: post_op_attr::attributes(result.attributes) },
            count,
            result.committed,
            result.verifier@,
        ),
{
    let wcc = wcc_data { before, after: post_op_attr::attributes(result.attributes) };
    let front = wcc_reply(xid, nfsstat3::NFS3_OK, wcc);
    let how = result.committed.number();
    let s2 = result.verifier@;
    let s1 = xdr_u32(how) + s2;
    regroup(front + xdr_u32(count), xdr_u32(how), s2);
    regroup(front, xdr_u32(count), s1);
    lemma_wcc_is_told(xid, nfsstat3::NFS3_OK, wcc, xdr_u32(count) + s1);
    u32_round_trip(count, s1);
    u32_round_trip(how, s2);
    lemma_numbers_are_known(nfsstat3::NFS3_OK, ftype3::NF3REG, result.committed, 0);
}

/// What names an object can have is told word by word.
pub proof fn lemma_pathconf_is_told(xid: u32, attr: post_op_attr)
    ensures
        tells_pathconf(pathconf_reply(xid, attr), xid, attr, 0, 32768, 1, 1, 0, 1),
{
    broadcast use group_places;

    let front = attr_reply(xid, nfsstat3::NFS3_OK, attr);
    let s = xdr_u32(0) + xdr_u32(32768) + xdr_bool(true) + xdr_bool(true) + xdr_bool(false)
        + xdr_bool(true);
    assert(pathconf_reply(xid, attr) =~= front + s);
    lemma_attr_is_told(xid, nfsstat3::NFS3_OK, attr, s);
}

/// A call that is not carried out is told why.
pub proof fn lemma_refusals_are_told(xid: u32)
    ensures
        tells_refusal(prog_unavail_reply(xid), xid, 1),
        tells_refusal(proc_unavail_reply(xid), xid, 3),
        tells_refusal(garbage_args_reply(xid), xid, 4),
{
    broadcast use group_places;

}

/// A bare success is told as a call that was accepted and carried out.
pub proof fn lemma_bare_success_is_told(xid: u32)
    ensures
        tells_refusal(success_reply(xid), xid, 0),
{
    broadcast use group_places;

}

/// A program or a protocol that is served in other versions only is told in which:
/// eight words for a program, six for the protocol.
pub proof fn lemma_versions_are_told(xid: u32, accepts: u32)
    ensures
        ({
            let reply = prog_mismatch_reply(xid, accepts);
            &&& reply.len() == 32
            &&& word(reply, 0) == xid
            &&& word(reply, 4) == 1
            &&& word(reply, 8) == 0
            &&& word(reply, 12) == 0
            &&& word(reply, 16) == 0
            &&& word(reply, 20) == 2
            &&& word(reply, 24) == accepts
            &&& word(reply, 28) == accepts
        }),
        ({
            let reply = rpc_mismatch_reply(xid);
            &&& reply.len() == 24
            &&& word(reply, 0) == xid
            &&& word(reply, 4) == 1
            &&& word(reply, 8) == 1
            &&& word(reply, 12) == 0
            &&& word(reply, 16) == 2
            &&& word(reply, 20) == 2
        }),
{
    broadcast use group_places;

}

// ---------------------------------------------------------------- file systems

/// The result tells static information about a file system: attributes, seven
/// sizes, the largest file, the precision of times, and properties.
pub open spec fn tells_fsinfo(reply: Seq<u8>, xid: u32, info: fsinfo3) -> bool {
    &&& parse_head(reply) matches Ok((head, s))
    &&& head == (xid, nfsstat3::NFS3_OK)
    &&& parse_post_op_attr(s) matches Ok((attr, s))
    &&& attr == info.obj_attributes
    &&& s.len() == 48
    &&& word(s, 0) == info.rtmax
    &&& word(s, 4) == info.rtpref
    &&& word(s, 8) == info.rtmult
    &&& word(s, 12) == info.wtmax
    &&& word(s, 16) == info.wtpref
    &&& word(s, 20) == info.wtmult
    &&& word(s, 24) == info.dtpref
    &&& long(s, 28) == info.maxfilesize
    &&& time_at(s, 36) == info.time_delta
    &&& word(s, 44) == info.properties
}

/// The result tells the space and the objects of a file system: attributes, then
/// total, free and available bytes, the same of files, and for how long this
/// holds.
pub open spec fn tells_fsstat(reply: Seq<u8>, xid: u32, stat: fsstat3) -> bool {
    &&& parse_head(reply) matches Ok((head, s))
    &&& head == (xid, nfsstat3::NFS3_OK)
    &&& parse_post_op_attr(s) matches Ok((attr, s))
    &&& attr == stat.obj_attributes
    &&& s.len() == 52
    &&& long(s, 0) == stat.tbytes
    &&& long(s, 8) == stat.fbytes
    &&& long(s, 16) == stat.abytes
    &&& long(s, 24) == stat.tfiles
    &&& long(s, 32) == stat.ffiles
    &&& long(s, 40) == stat.afiles
    &&& word(s, 48) == stat.invarsec
}

/// The information about a file system is read as it was written.
pub proof fn lemma_fsinfo_is_told(xid: u32, info: fsinfo3)
    ensures
        tells_fsinfo(stat_reply(xid, nfsstat3::NFS3_OK) + info.encoding(), xid, info),
{
    broadcast use group_places;

    let first = info.obj_attributes.encoding();
    let s = xdr_u32(info.rtmax) + xdr_u32(info.rtpref) + xdr_u32(info.rtmult) + xdr_u32(info.wtmax)
        + xdr_u32(info.wtpref) + xdr_u32(info.wtmult) + xdr_u32(info.dtpref) + xdr_u64(
        info.maxfilesize,
    ) + info.time_delta.encoding() + xdr_u32(info.properties);
    assert(info.encoding() =~= first + s);
    head_is_read(xid, nfsstat3::NFS3_OK, info.encoding());
    post_op_attr_is_read(info.obj_attributes, s);
    assert(word(s, 36) == info.time_delta.seconds);
    assert(word(s, 40) == info.time_delta.nseconds);
}

/// The statistics of a file system are read as they were written.
pub proof fn lemma_fsstat_is_told(xid: u32, stat: fsstat3)
    ensures
        tells_fsstat(stat_reply(xid, nfsstat3::NFS3_OK) + stat.encoding(), xid, stat),
{
    broadcast use group_places;

    let first = stat.obj_attributes.encoding();
    let s = xdr_u64(stat.tbytes) + xdr_u64(stat.fbytes) + xdr_u64(stat.abytes) + xdr_u64(
        stat.tfiles,
    ) + xdr_u64(stat.ffiles) + xdr_u64(stat.afiles) + xdr_u32(stat.invarsec);
    assert(stat.encoding() =~= first + s);
    head_is_read(xid, nfsstat3::NFS3_OK, stat.encoding());
    post_op_attr_is_read(stat.obj_attributes, s);
}

// --------------------------------------------------------- what a client sends

/// Attributes to set, as a client sends them: for mode, owner, group and size a
/// flag and then the value if it is set, and for both times a choice and then the
/// time if the client gives it.
pub open spec fn sent_attributes(a: sattr3) -> Seq<u8> {
    let mode = match a.mode {
        set_mode3::Void => xdr_u32(0),
        set_mode3::mode(n) => xdr_u32(1) + xdr_u32(n),
    };
    let uid = match a.uid {
        set_uid3::Void => xdr_u32(0),
        set_uid3::uid(n) => xdr_u32(1) + xdr_u32(n),
    };
    let gid = match a.gid {
        set_gid3::Void => xdr_u32(0),
        set_gid3::gid(n) => xdr_u32(1) + xdr_u32(n),
    };
    let size = match a.size {
        set_size3::Void => xdr_u32(0),
        set_size3::size(n) => xdr_u32(1) + xdr_u64(n),
    };
    let atime = match a.atime {
        set_atime::DONT_CHANGE => xdr_u32(0),
        set_atime::SET_TO_SERVER_TIME => xdr_u32(1),
        set_atime::SET_TO_CLIENT_TIME(t) => xdr_u32(2) + sent_time(t),
    };
    let mtime = match a.mtime {
        set_mtime::DONT_CHANGE => xdr_u32(0),
        set_mtime::SET_TO_SERVER_TIME => xdr_u32(1),
        set_mtime::SET_TO_CLIENT_TIME(t) => xdr_u32(2) + sent_time(t),
    };
    mode + uid + gid + size + atime + mtime
}

/// A time, as a client sends it.
pub open spec fn sent_time(t: nfstime3) -> Seq<u8> {
    xdr_u32(t.seconds) + xdr_u32(t.nseconds)
}

/// The time of change that an object is to have, if any, as a client sends it.
pub open spec fn sent_guard(ctime: Option<nfstime3>) -> Seq<u8> {
    match ctime {
        None => xdr_u32(0),
        Some(t) => xdr_u32(1) + sent_time(t),
    }
}

/// Attributes to set are received as a client sends them.
pub broadcast proof fn attributes_are_received(a: sattr3, rest: Seq<u8>)
    ensures
        #[trigger] parse_sattr3(sent_attributes(a) + rest) == Ok::<(sattr3, Seq<u8>), XdrError>(
            (a, rest),
        ),
{
    reveal(sattr3::encoding);
    assert(sent_attributes(a) == a.encoding());
    sattr3_round_trip(a, rest);
}

/// A guard is received as a client sends it.
pub broadcast proof fn guard_is_received(ctime: Option<nfstime3>, rest: Seq<u8>)
    ensures
        #[trigger] parse_sattrguard3(sent_guard(ctime) + rest) == Ok::<
            (sattrguard3, Seq<u8>),
            XdrError,
        >(
            (
                match ctime {
                    None => sattrguard3::Void,
                    Some(t) => sattrguard3::obj_ctime(t),
                },
                rest,
            ),
        ),
{
    let guard = match ctime {
        None => sattrguard3::Void,
        Some(t) => sattrguard3::obj_ctime(t),
    };
    assert(sent_guard(ctime) == guard.encoding());
    sattrguard3_round_trip(guard, rest);
}

/// Numbers in a row.
pub open spec fn row(numbers: Seq<u32>) -> Seq<u8>
    decreases numbers.len(),
{
    if numbers.len() == 0 {
        Seq::empty()
    } else {
        row(numbers.drop_last()) + xdr_u32(numbers.last())
    }
}

/// A credential that names its caller, as a client sends it: a stamp, the name of
/// the machine, the user, the group, and how many and which other groups.
pub open spec fn sent_credential(
    stamp: u32,
    machine: Seq<u8>,
    uid: u32,
    gid: u32,
    gids: Seq<u32>,
) -> Seq<u8> {
    xdr_u32(stamp) + (xdr_opaque(machine) + (xdr_u32(uid) + (xdr_u32(gid) + (xdr_u32(
        gids.len() as u32,
    ) + row(gids)))))
}

proof fn lemma_row_is_received(numbers: Seq<u32>, rest: Seq<u8>)
    ensures
        parse_u32s(numbers.len(), row(numbers) + rest) == Ok::<(Seq<u32>, Seq<u8>), XdrError>(
            (numbers, rest),
        ),
    decreases numbers.len(),
{
    if numbers.len() == 0 {
        assert(row(numbers) + rest =~= rest);
        assert(numbers =~= Seq::empty());
    } else {
        let before = numbers.drop_last();
        let last = xdr_u32(numbers.last());
        regroup(row(before), last, rest);
        lemma_row_is_received(before, last + rest);
        u32_round_trip(numbers.last(), rest);
        assert(before.push(numbers.last()) =~= numbers);
    }
}

/// A credential is received as a client sends it.
pub proof fn lemma_credential_is_received(
    stamp: u32,
    machine: Seq<u8>,
    uid: u32,
    gid: u32,
    gids: Seq<u32>,
)
    requires
        machine.len() <= u32::MAX,
        gids.len() <= u32::MAX,
    ensures
        parse_auth_unix(sent_credential(stamp, machine, uid, gid, gids)) == Ok::<
            (auth_unixView, Seq<u8>),
            XdrError,
        >(((stamp, machine, uid, gid, gids), Seq::empty())),
{
    let s4 = xdr_u32(gids.len() as u32) + row(gids);
    let s3 = xdr_u32(gid) + s4;
    let s2 = xdr_u32(uid) + s3;
    let s1 = xdr_opaque(machine) + s2;
    u32_round_trip(stamp, s1);
    opaque_round_trip(machine, s2);
    u32_round_trip(uid, s3);
    u32_round_trip(gid, s4);
    u32_round_trip(gids.len() as u32, row(gids));
    lemma_nothing_behind(row(gids));
    lemma_row_is_received(gids, Seq::empty());
}

/// A call, as a client sends it: the transaction, that it is a call, the version
/// of the protocol, program, version and procedure, a credential and a verifier
/// with their flavors, and the arguments.
pub open spec fn sent_call(
    xid: u32,
    rpcvers: u32,
    prog: u32,
    vers: u32,
    proc: u32,
    flavor: u32,
    credential: Seq<u8>,
    arguments: Seq<u8>,
) -> Seq<u8> {
    xdr_u32(xid) + (xdr_u32(0) + (xdr_u32(rpcvers) + (xdr_u32(prog) + (xdr_u32(vers) + (xdr_u32(
        proc,
    ) + (xdr_u32(flavor) + (xdr_opaque(credential) + (xdr_u32(0) + (xdr_opaque(Seq::empty())
        + arguments)))))))))
}

/// A call is received as a client sends it.
pub proof fn lemma_call_is_parsed(
    xid: u32,
    rpcvers: u32,
    prog: u32,
    vers: u32,
    proc: u32,
    flavor: auth_flavor,
    number: u32,
    credential: Seq<u8>,
    arguments: Seq<u8>,
)
    requires
        credential.len() <= u32::MAX,
        flavor == auth_flavor::AUTH_NULL && number == 0 || flavor == auth_flavor::AUTH_UNIX
            && number == 1,
    ensures
        parse_rpc_msg(
            sent_call(xid, rpcvers, prog, vers, proc, number, credential, arguments),
        ) matches Ok(((x, Some(call)), rest)) && x == xid && call == (
            rpcvers,
            prog,
            vers,
            proc,
            (flavor, credential),
            (auth_flavor::AUTH_NULL, Seq::<u8>::empty()),
        ) && rest == arguments,
{
    let s9 = xdr_opaque(Seq::empty()) + arguments;
    let s8 = xdr_u32(0) + s9;
    let s7 = xdr_opaque(credential) + s8;
    let s6 = xdr_u32(number) + s7;
    let s5 = xdr_u32(proc) + s6;
    let s4 = xdr_u32(vers) + s5;
    let s3 = xdr_u32(prog) + s4;
    let s2 = xdr_u32(rpcvers) + s3;
    let s1 = xdr_u32(0) + s2;
    u32_round_trip(xid, s1);
    u32_round_trip(0, s2);
    u32_round_trip(rpcvers, s3);
    u32_round_trip(prog, s4);
    u32_round_trip(vers, s5);
    u32_round_trip(proc, s6);
    u32_round_trip(number, s7);
    opaque_round_trip(credential, s8);
    u32_round_trip(0, s9);
    opaque_round_trip(Seq::empty(), arguments);
}

} // verus!
