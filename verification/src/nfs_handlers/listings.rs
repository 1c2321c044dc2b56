//! What clients read of the listings of a directory.
use super::dispatch::Procedure;
use super::exchange::{asked, one, run, seen, stands, told, Asked};
use super::readdir::{
    joined, lemma_head_lengths, lemma_listed_is_longest, listed, listing_head, readdir_reply,
    result_head, xdr_entries, xdr_entry3, ReaddirCall,
};
use super::readdirplus::{
    filled_reply, filling_from, lemma_filling_lists_the_longest_run, lemma_plus_listed_is_longest,
    plain_entries, plain_entry, plus_entries, plus_entry, plus_listed, readdirplus_reply,
    readdirplus_starts, FillingView, ReaddirplusCall, ReaddirplusView,
};
use super::{Outcome, Step};
use crate::client::{
    group_places, head_is_read, known, lemma_attr_is_told, parse_head, parse_post_op_attr,
    post_op_attr_is_read, regroup, tells_attr, word,
};
use crate::nfs::{fattr3, fileid3, nfs_fh3, nfsstat3, post_op_attr, present_handle};
use crate::vfs::{CallContext, DirEntry, FsAnswer, ReadDirResult};
use crate::xdr::{
    opaque8_round_trip, opaque_round_trip, padding, parse_opaque, parse_u32, parse_u64,
    u32_round_trip, u64_round_trip, xdr_bool, xdr_opaque, xdr_u32, xdr_u64, Parsed, XdrError,
};
use vstd::prelude::*;

verus! {

/// An entry of a listing: file, name and cookie.
pub type Listed = (u64, Seq<u8>, u64);

/// An entry, behind the flag that says that there is one.
pub open spec fn parse_entry(s: Seq<u8>) -> Parsed<Listed> {
    match parse_u64(s) {
        Err(e) => Err(e),
        Ok((fileid, s)) => match parse_opaque(s) {
            Err(e) => Err(e),
            Ok((name, s)) => match parse_u64(s) {
                Err(e) => Err(e),
                Ok((cookie, s)) => Ok(((fileid, name, cookie), s)),
            },
        },
    }
}

/// A list of entries: a flag that is set and an entry, again and again, then a
/// flag that is not set, and whether the directory ends there.
pub open spec fn parse_list(s: Seq<u8>) -> Parsed<(Seq<Listed>, bool)>
    decreases s.len(),
{
    match parse_u32(s) {
        Err(e) => Err(e),
        Ok((flag, t)) => if flag == 0 {
            match parse_u32(t) {
                Err(e) => Err(e),
                Ok((eof, t)) => Ok(((Seq::empty(), eof != 0), t)),
            }
        } else {
            match parse_entry(t) {
                Err(e) => Err(e),
                Ok((entry, t)) => if t.len() >= s.len() {
                    Err(XdrError::UnexpectedEof)
                } else {
                    match parse_list(t) {
                        Err(e) => Err(e),
                        Ok(((later, eof), t)) => Ok(((seq![entry] + later, eof), t)),
                    }
                },
            }
        },
    }
}

/// An entry that a file system listed, as a client is to read it.
pub open spec fn as_listed(entry: DirEntry) -> Listed {
    (entry.fileid, entry.name@, entry.cookie)
}

/// The entries from `i` up to `n`, one behind the other.
pub open spec fn joined_from(encoded: Seq<Seq<u8>>, i: nat, n: nat) -> Seq<u8>
    decreases n - i,
{
    if i >= n {
        Seq::empty()
    } else {
        encoded[i as int] + joined_from(encoded, i + 1, n)
    }
}

pub proof fn lemma_joined_from(encoded: Seq<Seq<u8>>, i: nat, n: nat)
    requires
        i <= n <= encoded.len(),
    ensures
        joined(encoded, i) + joined_from(encoded, i, n) == joined(encoded, n),
    decreases n - i,
{
    if i < n {
        lemma_joined_from(encoded, i + 1, n);
        assert(joined(encoded, i + 1) == joined(encoded, i) + encoded[i as int]);
        regroup(joined(encoded, i), encoded[i as int], joined_from(encoded, i + 1, n));
    } else {
        assert(joined(encoded, i) + Seq::<u8>::empty() =~= joined(encoded, i));
    }
}

proof fn lemma_entry_is_read(fileid: u64, name: Seq<u8>, cookie: u64, rest: Seq<u8>)
    requires
        name.len() <= u32::MAX,
    ensures
        parse_u32(xdr_entry3(fileid, name, cookie) + rest) matches Ok((flag, t)) && flag == 1
            && parse_entry(t) == Ok::<(Listed, Seq<u8>), XdrError>(((fileid, name, cookie), rest)),
        xdr_entry3(fileid, name, cookie).len() > 0,
{
    broadcast use crate::xdr::group_xdr_lengths;

    let s3 = xdr_u64(cookie) + rest;
    let s2 = xdr_opaque(name) + s3;
    let s1 = xdr_u64(fileid) + s2;
    regroup(xdr_bool(true) + xdr_u64(fileid) + xdr_opaque(name), xdr_u64(cookie), rest);
    regroup(xdr_bool(true) + xdr_u64(fileid), xdr_opaque(name), s3);
    regroup(xdr_bool(true), xdr_u64(fileid), s2);
    u32_round_trip(1, s1);
    u64_round_trip(fileid, s2);
    opaque_round_trip(name, s3);
    u64_round_trip(cookie, rest);
}

proof fn lemma_list_is_read(entries: Seq<DirEntry>, i: nat, n: nat, eof: bool)
    requires
        i <= n <= entries.len(),
        forall|k: int| 0 <= k < entries.len() ==> (#[trigger] entries[k]).name@.len() <= u32::MAX,
    ensures
        parse_list(joined_from(xdr_entries(entries), i, n) + (xdr_bool(false) + xdr_bool(eof)))
            == Ok::<((Seq<Listed>, bool), Seq<u8>), XdrError>(
            (
                (Seq::new((n - i) as nat, |k: int| as_listed(entries[i + k])), eof),
                Seq::empty(),
            ),
        ),
    decreases n - i,
{
    let tail = xdr_bool(false) + xdr_bool(eof);
    let encoded = xdr_entries(entries);
    let end: u32 = if eof {
        1
    } else {
        0
    };
    if i == n {
        assert(joined_from(encoded, i, n) + tail =~= tail);
        u32_round_trip(0, xdr_bool(eof));
        assert(xdr_bool(eof) + Seq::<u8>::empty() =~= xdr_bool(eof));
        u32_round_trip(end, Seq::empty());
        assert(Seq::new((n - i) as nat, |k: int| as_listed(entries[i + k])) =~= Seq::empty());
    } else {
        let entry = entries[i as int];
        let behind = joined_from(encoded, i + 1, n) + tail;
        assert(encoded[i as int] == xdr_entry3(entry.fileid, entry.name@, entry.cookie));
        regroup(encoded[i as int], joined_from(encoded, i + 1, n), tail);
        lemma_entry_is_read(entry.fileid, entry.name@, entry.cookie, behind);
        lemma_list_is_read(entries, i + 1, n, eof);
        assert(seq![as_listed(entry)] + Seq::new(
            (n - i - 1) as nat,
            |k: int| as_listed(entries[i + 1 + k]),
        ) =~= Seq::new((n - i) as nat, |k: int| as_listed(entries[i + k])));
    }
}

// --------------------------------------------------------------------- READDIR

/// The result is a listing: attributes, the version of the directory, and a list
/// of entries.
pub open spec fn tells_list(
    reply: Seq<u8>,
    xid: u32,
    attr: Result<fattr3, nfsstat3>,
    list: Seq<Listed>,
    eof: bool,
) -> bool {
    &&& parse_head(reply) matches Ok((head, s))
    &&& head == (xid, nfsstat3::NFS3_OK)
    &&& parse_post_op_attr(s) matches Ok((a, s))
    &&& a == known(attr)
    &&& s.len() >= 8
    &&& version_at(s) == version(attr)
    &&& parse_list(s.skip(8)) == Ok::<((Seq<Listed>, bool), Seq<u8>), XdrError>(
        ((list, eof), Seq::empty()),
    )
}

/// The version of a directory, in the first eight bytes.
pub open spec fn version_at(s: Seq<u8>) -> (u32, u32) {
    (word(s, 0), word(s, 4))
}

/// The version of a directory: the time of its last modification, or zeros where
/// that is not known.
pub open spec fn version(attr: Result<fattr3, nfsstat3>) -> (u32, u32) {
    match attr {
        Ok(a) => (a.mtime.seconds, a.mtime.nseconds),
        Err(_) => (0, 0),
    }
}

/// How many bytes an entry fills: flag, file, length of the name and cookie, and
/// the name up to a multiple of four.
pub open spec fn entry_bytes(name: Seq<u8>) -> nat {
    24 + (name.len() + 3) / 4 * 4
}

/// Bytes and their padding fill a multiple of four.
proof fn lemma_padded(data: Seq<u8>)
    ensures
        xdr_opaque(data).len() == 4 + (data.len() + 3) / 4 * 4,
{
    broadcast use crate::xdr::group_xdr_lengths;

    let len = data.len();
    let past = len % 4;
    assert(len == len / 4 * 4 + past);
    assert(padding(len) == if past == 0 {
        0
    } else {
        4 - past
    });
    assert((len + 3) / 4 == if past == 0 {
        len / 4
    } else {
        len / 4 + 1
    });
}

proof fn lemma_entry_bytes(fileid: u64, name: Seq<u8>, cookie: u64)
    ensures
        xdr_entry3(fileid, name, cookie).len() == entry_bytes(name),
{
    broadcast use crate::xdr::group_xdr_lengths;

    lemma_padded(name);
}

/// The start of a listing is read as it was written.
pub proof fn lemma_listing_head_is_told(
    xid: u32,
    attr: Result<fattr3, nfsstat3>,
    behind: Seq<u8>,
)
    ensures
        parse_head(listing_head(xid, attr) + behind) matches Ok((head, s)) && head == (
            xid,
            nfsstat3::NFS3_OK,
        ) && (parse_post_op_attr(s) matches Ok((a, t)) && a == known(attr) && t.len() >= 8
            && version_at(t) == version(attr) && t.skip(8) == behind),
{
    broadcast use group_places;

    let version_bytes = super::readdir::dir_version(attr);
    let t = version_bytes + behind;
    let front = super::stat_reply(xid, nfsstat3::NFS3_OK);
    assert(listing_head(xid, attr) + behind =~= front + (known(attr).encoding() + t));
    head_is_read(xid, nfsstat3::NFS3_OK, known(attr).encoding() + t);
    post_op_attr_is_read(known(attr), t);
    match attr {
        Ok(a) => {
            assert(version_bytes.len() == 8);
        },
        Err(_) => {
            reveal(xdr_u32);
            assert(version_bytes =~= xdr_u32(0) + xdr_u32(0));
        },
    }
    assert(t.skip(8) =~= behind);
}

/// The first `n` entries, as a client is to read them.
pub open spec fn first_entries(entries: Seq<DirEntry>, n: nat) -> Seq<Listed> {
    Seq::new(n, |k: int| as_listed(entries[k]))
}

/// How many bytes of a result stand in front of the list.
pub open spec fn front_bytes(attr: Result<fattr3, nfsstat3>) -> nat {
    if attr is Ok {
        96
    } else {
        12
    }
}

/// The reply lists the entries in their order, as many as fit: the result is
/// within the client's count and the reply within a record, and one entry more
/// would not be. It says that the directory ends exactly if nothing was left out
/// and the file system says so.
pub open spec fn lists_what_fits(
    reply: Seq<u8>,
    xid: u32,
    attr: Result<fattr3, nfsstat3>,
    dircount: u32,
    entries: Seq<DirEntry>,
    end: bool,
) -> bool {
    exists|n: nat|
        #![trigger first_entries(entries, n)]
        {
            &&& n <= entries.len()
            &&& n == 0 ==> entries.len() == 0
            &&& tells_list(
                reply,
                xid,
                attr,
                first_entries(entries, n),
                n == entries.len() && end,
            )
            &&& reply.len() - 28 <= dircount
            &&& reply.len() <= 2097152
            &&& n < entries.len() ==> {
                let more = reply.len() + entry_bytes(entries[n as int].name@);
                more - 28 > dircount || more > 2097152
            }
        }
}

/// What READDIR answers to what the file system listed. A listing that is empty
/// although it does not end is a fault; one whose first entry does not fit is too
/// large for the client's count.
pub proof fn lemma_listing_is_told(
    xid: u32,
    attr: Result<fattr3, nfsstat3>,
    dircount: u32,
    entries: Seq<DirEntry>,
    end: bool,
)
    requires
        forall|k: int| 0 <= k < entries.len() ==> (#[trigger] entries[k]).name@.len() <= u32::MAX,
        dircount >= front_bytes(attr) + 8,
    ensures
        ({
            let reply = readdir_reply(xid, attr, dircount, entries, end);
            let first = front_bytes(attr) + entry_bytes(entries[0].name@) + 8;
            if entries.len() == 0 && !end {
                tells_attr(reply, xid, nfsstat3::NFS3ERR_SERVERFAULT, known(attr))
            } else if entries.len() > 0 && (first > dircount || first + 28 > 2097152) {
                tells_attr(reply, xid, nfsstat3::NFS3ERR_TOOSMALL, known(attr))
            } else {
                lists_what_fits(reply, xid, attr, dircount, entries, end)
            }
        }),
{
    broadcast use crate::xdr::group_xdr_lengths;

    lemma_attr_is_told(xid, nfsstat3::NFS3ERR_SERVERFAULT, known(attr), Seq::empty());
    lemma_attr_is_told(xid, nfsstat3::NFS3ERR_TOOSMALL, known(attr), Seq::empty());
    lemma_head_lengths(xid, attr);
    let encoded = xdr_entries(entries);
    let head = result_head(attr).len();
    assert(head == front_bytes(attr));
    let n = listed(encoded, head, dircount as nat, 0);
    lemma_listed_is_longest(encoded, head, dircount as nat, 0);
    if entries.len() > 0 {
        assert(joined(encoded, 1) =~= encoded[0]) by {
            reveal_with_fuel(joined, 2);
        }
        lemma_entry_bytes(entries[0].fileid, entries[0].name@, entries[0].cookie);
        assert(encoded[0].len() == entry_bytes(entries[0].name@));
    }
    if !(entries.len() == 0 && !end) && !(n == 0 && entries.len() > 0) {
        let eof = n == entries.len() && end;
        let reply = readdir_reply(xid, attr, dircount, entries, end);
        let tail = xdr_bool(false) + xdr_bool(eof);
        let list = joined(encoded, n);
        lemma_joined_from(encoded, 0, n);
        assert(joined(encoded, 0) + joined_from(encoded, 0, n) =~= joined_from(encoded, 0, n));
        regroup(listing_head(xid, attr) + list, xdr_bool(false), xdr_bool(eof));
        regroup(listing_head(xid, attr), list, tail);
        lemma_listing_head_is_told(xid, attr, list + tail);
        lemma_list_is_read(entries, 0, n, eof);
        assert(Seq::new((n - 0) as nat, |k: int| as_listed(entries[0 + k])) =~= first_entries(
            entries,
            n,
        ));
        assert(tells_list(reply, xid, attr, first_entries(entries, n), eof));
        assert(reply.len() == 28 + head + list.len() + 8);
        if n < entries.len() {
            let entry = entries[n as int];
            lemma_entry_bytes(entry.fileid, entry.name@, entry.cookie);
            assert(joined(encoded, n + 1) == joined(encoded, n) + encoded[n as int]);
        }
    }
}

/// READDIR asks for the entries behind the cookie that was given, of the directory
/// that the handle stands for. It asks for as many as may fit: that many entries
/// of the smallest size stay within the client's count and within a record, and
/// one more would not. A count that is too small is refused without asking.
pub proof fn lemma_readdir_asks_for_what_may_fit(
    xid: u32,
    context: CallContext,
    dir: Seq<u8>,
    cookie: u64,
    verifier: Seq<u8>,
    dircount: u32,
    rest: Seq<u8>,
    start: Step<ReaddirCall>,
    dirid: fileid3,
    attr: Result<fattr3, nfsstat3>,
    stat: nfsstat3,
)
    requires
        dir.len() <= u32::MAX,
        verifier.len() == 8,
        ReaddirCall::starts(
            xid,
            xdr_opaque(dir) + (xdr_u64(cookie) + (verifier + (xdr_u32(dircount) + rest))),
            start,
        ),
    ensures
        ({
            let r2 = run(FsAnswer::Id(Ok(dirid))).push(FsAnswer::Attr(attr));
            let q2 = one(Asked::File { handle: dir }).push(Asked::Getattr { id: dirid });
            let refused = dircount < (if attr is Ok {
                160u32
            } else {
                44u32
            });
            let fits = |n: int|
                24 * n + front_bytes(attr) + 8 <= dircount && 24 * n + front_bytes(attr) + 36
                    <= 2097152;
            &&& start matches Step::Ask(p)
            &&& asked(p, context, xid, r2) == q2
            &&& refused ==> (told(p, xid, r2) matches Some(reply) && tells_attr(
                reply,
                xid,
                nfsstat3::NFS3ERR_TOOSMALL,
                known(attr),
            ))
            &&& !refused ==> {
                &&& stands(p, xid, r2) matches Outcome::Ask(q)
                &&& seen(q.asks(&context)) matches Asked::Readdir {
                    dirid: id,
                    start_after,
                    max_entries,
                }
                &&& id == dirid
                &&& start_after == cookie
                &&& max_entries > 0
                &&& fits(max_entries as int)
                &&& !fits(max_entries + 1)
            }
            &&& told(p, xid, run(FsAnswer::Id(Err(stat)))) matches Some(reply) && tells_attr(
                reply,
                xid,
                stat,
                post_op_attr::Void,
            )
        }),
{
    broadcast use super::exchange::group_runs;

    let s3 = xdr_u32(dircount) + rest;
    let s2 = verifier + s3;
    let s1 = xdr_u64(cookie) + s2;
    opaque_round_trip(dir, s1);
    u64_round_trip(cookie, s2);
    opaque8_round_trip(verifier, s3);
    u32_round_trip(dircount, rest);
    lemma_head_lengths(xid, attr);
    lemma_attr_is_told(xid, nfsstat3::NFS3ERR_TOOSMALL, known(attr), Seq::empty());
    lemma_attr_is_told(xid, stat, post_op_attr::Void, Seq::empty());
}

/// READDIR tells the client what the file system listed, as far as it fits, or why
/// it could not list.
pub proof fn lemma_readdir_lists_what_fits(
    xid: u32,
    dir: Seq<u8>,
    cookie: u64,
    verifier: Seq<u8>,
    dircount: u32,
    rest: Seq<u8>,
    start: Step<ReaddirCall>,
    dirid: fileid3,
    attr: Result<fattr3, nfsstat3>,
    listing: ReadDirResult,
    stat: nfsstat3,
)
    requires
        dir.len() <= u32::MAX,
        verifier.len() == 8,
        ReaddirCall::starts(
            xid,
            xdr_opaque(dir) + (xdr_u64(cookie) + (verifier + (xdr_u32(dircount) + rest))),
            start,
        ),
        dircount >= (if attr is Ok {
            160u32
        } else {
            44u32
        }),
        FsAnswer::Listing(Ok(listing)).encodable(),
    ensures
        ({
            let r2 = run(FsAnswer::Id(Ok(dirid))).push(FsAnswer::Attr(attr));
            let entries = listing.entries@;
            let first = front_bytes(attr) + entry_bytes(entries[0].name@) + 8;
            &&& start matches Step::Ask(p)
            &&& told(p, xid, r2.push(FsAnswer::Listing(Ok(listing)))) matches Some(reply) && (
            if entries.len() == 0 && !listing.end {
                tells_attr(reply, xid, nfsstat3::NFS3ERR_SERVERFAULT, known(attr))
            } else if entries.len() > 0 && (first > dircount || first + 28 > 2097152) {
                tells_attr(reply, xid, nfsstat3::NFS3ERR_TOOSMALL, known(attr))
            } else {
                lists_what_fits(reply, xid, attr, dircount, entries, listing.end)
            })
            &&& told(p, xid, r2.push(FsAnswer::Listing(Err(stat)))) matches Some(reply)
                && tells_attr(reply, xid, stat, known(attr))
        }),
{
    broadcast use super::exchange::group_runs;

    let s3 = xdr_u32(dircount) + rest;
    let s2 = verifier + s3;
    let s1 = xdr_u64(cookie) + s2;
    opaque_round_trip(dir, s1);
    u64_round_trip(cookie, s2);
    opaque8_round_trip(verifier, s3);
    u32_round_trip(dircount, rest);
    lemma_head_lengths(xid, attr);
    lemma_listing_is_told(xid, attr, dircount, listing.entries@, listing.end);
    lemma_attr_is_told(xid, stat, known(attr), Seq::empty());
}

// ----------------------------------------------------------------- READDIRPLUS

/// An entry with attributes and a handle that may be absent.
pub type ListedPlus = (Listed, post_op_attr, Option<Seq<u8>>);

/// An entry with attributes and handle, behind the flag that says that there is
/// one.
pub open spec fn parse_plus_entry(s: Seq<u8>) -> Parsed<ListedPlus> {
    match parse_entry(s) {
        Err(e) => Err(e),
        Ok((entry, s)) => match parse_post_op_attr(s) {
            Err(e) => Err(e),
            Ok((attr, s)) => match parse_u32(s) {
                Err(e) => Err(e),
                Ok((flag, s)) => if flag == 0 {
                    Ok(((entry, attr, None), s))
                } else {
                    match parse_opaque(s) {
                        Err(e) => Err(e),
                        Ok((handle, s)) => Ok(((entry, attr, Some(handle)), s)),
                    }
                },
            },
        },
    }
}

/// A list of entries with attributes and handles.
pub open spec fn parse_plus_list(s: Seq<u8>) -> Parsed<(Seq<ListedPlus>, bool)>
    decreases s.len(),
{
    match parse_u32(s) {
        Err(e) => Err(e),
        Ok((flag, t)) => if flag == 0 {
            match parse_u32(t) {
                Err(e) => Err(e),
                Ok((eof, t)) => Ok(((Seq::empty(), eof != 0), t)),
            }
        } else {
            match parse_plus_entry(t) {
                Err(e) => Err(e),
                Ok((entry, t)) => if t.len() >= s.len() {
                    Err(XdrError::UnexpectedEof)
                } else {
                    match parse_plus_list(t) {
                        Err(e) => Err(e),
                        Ok(((later, eof), t)) => Ok(((seq![entry] + later, eof), t)),
                    }
                },
            }
        },
    }
}

/// An entry that a file system listed, as a client is to read it: with the file
/// that the attributes name, the attributes, and the handle of the file that was
/// listed.
pub open spec fn as_listed_plus(
    entry: DirEntry,
    handles: spec_fn(fileid3) -> Seq<u8>,
) -> ListedPlus {
    (
        (entry.attr.fileid, entry.name@, entry.cookie),
        post_op_attr::attributes(entry.attr),
        Some(handles(entry.fileid)),
    )
}

/// The first `n` entries, as a client is to read them.
pub open spec fn first_plus_entries(
    entries: Seq<DirEntry>,
    handles: spec_fn(fileid3) -> Seq<u8>,
    n: nat,
) -> Seq<ListedPlus> {
    Seq::new(n, |k: int| as_listed_plus(entries[k], handles))
}

proof fn lemma_plus_entry_is_read(entry: DirEntry, handle: Seq<u8>, rest: Seq<u8>)
    requires
        entry.name@.len() <= u32::MAX,
        handle.len() <= u32::MAX,
    ensures
        parse_u32(plus_entry(entry, handle) + rest) matches Ok((flag, t)) && flag == 1
            && parse_plus_entry(t) == Ok::<(ListedPlus, Seq<u8>), XdrError>(
            (
                (
                    (entry.attr.fileid, entry.name@, entry.cookie),
                    post_op_attr::attributes(entry.attr),
                    Some(handle),
                ),
                rest,
            ),
        ),
        plus_entry(entry, handle).len() == plus_bytes(entry, handle),
{
    broadcast use crate::xdr::group_xdr_lengths;

    let attr = post_op_attr::attributes(entry.attr);
    let s3 = xdr_opaque(handle) + rest;
    let s2 = xdr_bool(true) + s3;
    let s1 = attr.encoding() + s2;
    regroup(plain_entry(entry) + attr.encoding(), present_handle(handle), rest);
    regroup(plain_entry(entry), attr.encoding(), present_handle(handle) + rest);
    regroup(xdr_bool(true), xdr_opaque(handle), rest);
    lemma_entry_is_read(entry.attr.fileid, entry.name@, entry.cookie, s1);
    post_op_attr_is_read(attr, s2);
    u32_round_trip(1, s3);
    opaque_round_trip(handle, rest);
    assert(entry.attr.encoding().len() == 84);
    lemma_entry_bytes(entry.attr.fileid, entry.name@, entry.cookie);
    lemma_padded(handle);
}

proof fn lemma_plus_list_is_read(
    entries: Seq<DirEntry>,
    handles: spec_fn(fileid3) -> Seq<u8>,
    i: nat,
    n: nat,
    eof: bool,
)
    requires
        i <= n <= entries.len(),
        forall|k: int| 0 <= k < entries.len() ==> (#[trigger] entries[k]).name@.len() <= u32::MAX,
        forall|id: fileid3| (#[trigger] handles(id)).len() <= u32::MAX,
    ensures
        parse_plus_list(
            joined_from(plus_entries(entries, handles), i, n) + (xdr_bool(false) + xdr_bool(eof)),
        ) == Ok::<((Seq<ListedPlus>, bool), Seq<u8>), XdrError>(
            (
                (Seq::new((n - i) as nat, |k: int| as_listed_plus(entries[i + k], handles)), eof),
                Seq::empty(),
            ),
        ),
    decreases n - i,
{
    let tail = xdr_bool(false) + xdr_bool(eof);
    let encoded = plus_entries(entries, handles);
    let end: u32 = if eof {
        1
    } else {
        0
    };
    if i == n {
        assert(joined_from(encoded, i, n) + tail =~= tail);
        u32_round_trip(0, xdr_bool(eof));
        assert(xdr_bool(eof) + Seq::<u8>::empty() =~= xdr_bool(eof));
        u32_round_trip(end, Seq::empty());
        assert(Seq::new((n - i) as nat, |k: int| as_listed_plus(entries[i + k], handles))
            =~= Seq::empty());
    } else {
        let entry = entries[i as int];
        let handle = handles(entry.fileid);
        let behind = joined_from(encoded, i + 1, n) + tail;
        assert(encoded[i as int] == plus_entry(entry, handle));
        regroup(encoded[i as int], joined_from(encoded, i + 1, n), tail);
        lemma_plus_entry_is_read(entry, handle, behind);
        lemma_plus_list_is_read(entries, handles, i + 1, n, eof);
        assert(seq![as_listed_plus(entry, handles)] + Seq::new(
            (n - i - 1) as nat,
            |k: int| as_listed_plus(entries[i + 1 + k], handles),
        ) =~= Seq::new((n - i) as nat, |k: int| as_listed_plus(entries[i + k], handles)));
    }
}

/// The result is a listing with attributes and handles.
pub open spec fn tells_plus_list(
    reply: Seq<u8>,
    xid: u32,
    attr: Result<fattr3, nfsstat3>,
    list: Seq<ListedPlus>,
    eof: bool,
) -> bool {
    &&& parse_head(reply) matches Ok((head, s))
    &&& head == (xid, nfsstat3::NFS3_OK)
    &&& parse_post_op_attr(s) matches Ok((a, s))
    &&& a == known(attr)
    &&& s.len() >= 8
    &&& version_at(s) == version(attr)
    &&& parse_plus_list(s.skip(8)) == Ok::<((Seq<ListedPlus>, bool), Seq<u8>), XdrError>(
        ((list, eof), Seq::empty()),
    )
}

/// How many bytes an entry with attributes and handle fills.
pub open spec fn plus_bytes(entry: DirEntry, handle: Seq<u8>) -> nat {
    entry_bytes(entry.name@) + 88 + 8 + (handle.len() + 3) / 4 * 4
}

/// How many bytes the first `n` entries fill without attributes and handles.
pub open spec fn charged(entries: Seq<DirEntry>, n: nat) -> nat
    decreases n,
{
    if n == 0 {
        0
    } else {
        charged(entries, (n - 1) as nat) + entry_bytes(entries[n - 1].name@)
    }
}

/// The reply lists the entries in their order, as many as fit: the result is
/// within the client's larger count, the reply within a record, and the entries
/// without attributes and handles within the client's smaller count, and one
/// entry more would not be. It says that the directory ends exactly if nothing
/// was left out and the file system says so.
pub open spec fn lists_plus_what_fits(
    reply: Seq<u8>,
    xid: u32,
    attr: Result<fattr3, nfsstat3>,
    dircount: u32,
    maxcount: u32,
    entries: Seq<DirEntry>,
    end: bool,
    handles: spec_fn(fileid3) -> Seq<u8>,
) -> bool {
    exists|n: nat|
        #![trigger first_plus_entries(entries, handles, n)]
        {
            &&& 0 < n <= entries.len()
            &&& tells_plus_list(
                reply,
                xid,
                attr,
                first_plus_entries(entries, handles, n),
                n == entries.len() && end,
            )
            &&& reply.len() - 28 <= maxcount
            &&& reply.len() <= 2097152
            &&& charged(entries, n) + 8 <= dircount
            &&& n < entries.len() ==> {
                let entry = entries[n as int];
                let more = reply.len() + plus_bytes(entry, handles(entry.fileid));
                more - 28 > maxcount || more > 2097152 || charged(entries, n + 1) + 8 > dircount
            }
        }
}

proof fn lemma_charged(entries: Seq<DirEntry>, n: nat)
    requires
        n <= entries.len(),
    ensures
        joined(plain_entries(entries), n).len() == charged(entries, n),
    decreases n,
{
    broadcast use crate::xdr::group_xdr_lengths;

    if n > 0 {
        lemma_charged(entries, (n - 1) as nat);
        let entry = entries[n - 1];
        assert(plain_entries(entries)[n - 1] == plain_entry(entry));
        lemma_entry_bytes(entry.attr.fileid, entry.name@, entry.cookie);
    }
}

/// What READDIRPLUS answers to the entries that the file system listed, given the
/// handles of their files. A listing whose first entry does not fit is too large
/// for the client's counts.
pub proof fn lemma_plus_listing_is_told(
    xid: u32,
    attr: Result<fattr3, nfsstat3>,
    dircount: u32,
    maxcount: u32,
    entries: Seq<DirEntry>,
    end: bool,
    handles: spec_fn(fileid3) -> Seq<u8>,
)
    requires
        entries.len() > 0,
        forall|k: int| 0 <= k < entries.len() ==> (#[trigger] entries[k]).name@.len() <= u32::MAX,
        forall|id: fileid3| (#[trigger] handles(id)).len() <= u32::MAX,
    ensures
        ({
            let reply = readdirplus_reply(xid, attr, dircount, maxcount, entries, end, handles);
            let first = front_bytes(attr) + plus_bytes(entries[0], handles(entries[0].fileid)) + 8;
            if first > maxcount || first + 28 > 2097152 || entry_bytes(entries[0].name@) + 8
                > dircount {
                tells_attr(reply, xid, nfsstat3::NFS3ERR_TOOSMALL, known(attr))
            } else {
                lists_plus_what_fits(reply, xid, attr, dircount, maxcount, entries, end, handles)
            }
        }),
{
    broadcast use crate::xdr::group_xdr_lengths;

    lemma_attr_is_told(xid, nfsstat3::NFS3ERR_TOOSMALL, known(attr), Seq::empty());
    lemma_head_lengths(xid, attr);
    let plus = plus_entries(entries, handles);
    let plain = plain_entries(entries);
    let head = result_head(attr).len();
    assert(head == front_bytes(attr));
    let n = plus_listed(plus, plain, head, dircount as nat, maxcount as nat, 0);
    lemma_plus_listed_is_longest(plus, plain, head, dircount as nat, maxcount as nat, 0);
    assert(joined(plus, 1) =~= plus[0]) by {
        reveal_with_fuel(joined, 2);
    }
    lemma_charged(entries, 1);
    assert(charged(entries, 1) == entry_bytes(entries[0].name@)) by {
        reveal_with_fuel(charged, 2);
    }
    lemma_plus_entry_is_read(entries[0], handles(entries[0].fileid), Seq::empty());
    if n > 0 {
        let eof = n == entries.len() && end;
        let reply = readdirplus_reply(xid, attr, dircount, maxcount, entries, end, handles);
        let tail = xdr_bool(false) + xdr_bool(eof);
        let list = joined(plus, n);
        lemma_joined_from(plus, 0, n);
        assert(joined(plus, 0) + joined_from(plus, 0, n) =~= joined_from(plus, 0, n));
        regroup(listing_head(xid, attr), list, tail);
        lemma_listing_head_is_told(xid, attr, list + tail);
        lemma_plus_list_is_read(entries, handles, 0, n, eof);
        assert(Seq::new((n - 0) as nat, |k: int| as_listed_plus(entries[0 + k], handles))
            =~= first_plus_entries(entries, handles, n));
        assert(tells_plus_list(reply, xid, attr, first_plus_entries(entries, handles, n), eof));
        assert(reply.len() == 28 + head + list.len() + 8);
        lemma_charged(entries, n);
        if n < entries.len() {
            let entry = entries[n as int];
            lemma_plus_entry_is_read(entry, handles(entry.fileid), Seq::empty());
            lemma_charged(entries, n + 1);
            assert(joined(plus, n + 1) == joined(plus, n) + plus[n as int]);
        }
    }
}

/// What the client is told once the entries are listed, if the file system gives
/// each file that it is asked about the handle that `handles` says.
pub open spec fn told_with_handles(
    p: ReaddirplusView,
    context: CallContext,
    xid: u32,
    handles: spec_fn(fileid3) -> nfs_fh3,
    turns: nat,
) -> Option<Seq<u8>>
    decreases turns,
{
    if turns == 0 {
        None
    } else {
        match seen(p.asks(&context)) {
            Asked::Handle { id } => match p.next(xid, FsAnswer::Handle(handles(id))) {
                Outcome::Ask(q) => told_with_handles(q, context, xid, handles, (turns - 1) as nat),
                Outcome::Reply(reply) => Some(reply),
                _ => None,
            },
            _ => None,
        }
    }
}

proof fn lemma_handles_are_asked_for(
    filling: FillingView,
    context: CallContext,
    xid: u32,
    handles: spec_fn(fileid3) -> nfs_fh3,
    turns: nat,
)
    requires
        filling.written < filling.entries.len(),
        turns >= filling.entries.len() - filling.written,
    ensures
        told_with_handles(ReaddirplusView::Fill { filling }, context, xid, handles, turns) == Some(
            filled_reply(filling, xid, |id: fileid3| handles(id)@),
        ),
    decreases turns,
{
    let views = |id: fileid3| handles(id)@;
    let handle = views(filling.entry().fileid);
    if filling.fits(handle) && filling.written + 1 < filling.entries.len() {
        lemma_handles_are_asked_for(
            filling.with_entry(handle),
            context,
            xid,
            handles,
            (turns - 1) as nat,
        );
    }
}

/// READDIRPLUS asks for the entries behind the cookie that was given, of the
/// directory that the handle stands for, and for as many as may fit: that many
/// entries of the smallest size stay within the client's counts and within a
/// record, and one more would not. Where the larger count has room for none of
/// them but for `.` and `..` without attributes, up to two are asked for. Counts
/// that are too small are refused without asking.
pub proof fn lemma_readdirplus_asks_for_what_may_fit(
    xid: u32,
    context: CallContext,
    dir: Seq<u8>,
    cookie: u64,
    verifier: Seq<u8>,
    dircount: u32,
    maxcount: u32,
    rest: Seq<u8>,
    start: Step<ReaddirplusCall>,
    dirid: fileid3,
    attr: Result<fattr3, nfsstat3>,
    stat: nfsstat3,
)
    requires
        dir.len() <= u32::MAX,
        verifier.len() == 8,
        readdirplus_starts(
            xdr_opaque(dir) + (xdr_u64(cookie) + (verifier + (xdr_u32(dircount) + (xdr_u32(
                maxcount,
            ) + rest)))),
            start,
        ),
    ensures
        ({
            let refused = dircount < 32 || maxcount < (if attr is Ok {
                160u32
            } else {
                140u32
            });
            let fits = |n: int|
                120 * n + front_bytes(attr) + 8 <= maxcount && 120 * n + front_bytes(attr) + 36
                    <= 2097152 && 24 * n + 8 <= dircount;
            let small = |n: int| n <= 2 && 24 * n + 8 <= dircount;
            &&& start matches Step::Ask(call)
            &&& seen(call@.asks(&context)) == Asked::File { handle: dir }
            &&& call@.next(xid, FsAnswer::Id(Err(stat))) matches Outcome::Reply(reply) && tells_attr(
                reply,
                xid,
                stat,
                post_op_attr::Void,
            )
            &&& call@.next(xid, FsAnswer::Id(Ok(dirid))) matches Outcome::Ask(q)
            &&& seen(q.asks(&context)) == Asked::Getattr { id: dirid }
            &&& refused ==> (q.next(xid, FsAnswer::Attr(attr)) matches Outcome::Reply(reply)
                && tells_attr(reply, xid, nfsstat3::NFS3ERR_TOOSMALL, known(attr)))
            &&& !refused ==> {
                &&& q.next(xid, FsAnswer::Attr(attr)) matches Outcome::Ask(l)
                &&& seen(l.asks(&context)) matches Asked::Readdir {
                    dirid: id,
                    start_after,
                    max_entries,
                }
                &&& id == dirid
                &&& start_after == cookie
                &&& max_entries > 0
                &&& if attr is Ok && maxcount < 224 {
                    small(max_entries as int) && !small(max_entries + 1)
                } else {
                    fits(max_entries as int) && !fits(max_entries + 1)
                }
            }
        }),
{
    let s4 = xdr_u32(maxcount) + rest;
    let s3 = xdr_u32(dircount) + s4;
    let s2 = verifier + s3;
    let s1 = xdr_u64(cookie) + s2;
    opaque_round_trip(dir, s1);
    u64_round_trip(cookie, s2);
    opaque8_round_trip(verifier, s3);
    u32_round_trip(dircount, s4);
    u32_round_trip(maxcount, rest);
    lemma_head_lengths(xid, attr);
    lemma_attr_is_told(xid, nfsstat3::NFS3ERR_TOOSMALL, known(attr), Seq::empty());
    lemma_attr_is_told(xid, stat, post_op_attr::Void, Seq::empty());
}

/// READDIRPLUS tells the client what the file system listed, each entry with its
/// attributes and its handle, as far as it fits, or why it could not list.
pub proof fn lemma_readdirplus_lists_what_fits(
    xid: u32,
    context: CallContext,
    dir: Seq<u8>,
    cookie: u64,
    verifier: Seq<u8>,
    dircount: u32,
    maxcount: u32,
    rest: Seq<u8>,
    start: Step<ReaddirplusCall>,
    dirid: fileid3,
    attr: Result<fattr3, nfsstat3>,
    listing: ReadDirResult,
    handles: spec_fn(fileid3) -> nfs_fh3,
    stat: nfsstat3,
)
    requires
        dir.len() <= u32::MAX,
        verifier.len() == 8,
        readdirplus_starts(
            xdr_opaque(dir) + (xdr_u64(cookie) + (verifier + (xdr_u32(dircount) + (xdr_u32(
                maxcount,
            ) + rest)))),
            start,
        ),
        dircount >= 32,
        maxcount >= (if attr is Ok {
            160u32
        } else {
            140u32
        }),
        FsAnswer::Listing(Ok(listing)).encodable(),
        forall|id: fileid3| (#[trigger] handles(id))@.len() <= u32::MAX,
    ensures
        ({
            let entries = listing.entries@;
            let views = |id: fileid3| handles(id)@;
            let first = front_bytes(attr) + plus_bytes(entries[0], views(entries[0].fileid)) + 8;
            &&& start matches Step::Ask(call)
            &&& call@.next(xid, FsAnswer::Id(Ok(dirid))) matches Outcome::Ask(q)
            &&& q.next(xid, FsAnswer::Attr(attr)) matches Outcome::Ask(l)
            &&& l.next(xid, FsAnswer::Listing(Err(stat))) matches Outcome::Reply(reply)
                && tells_attr(reply, xid, stat, known(attr))
            &&& entries.len() == 0 ==> (l.next(
                xid,
                FsAnswer::Listing(Ok(listing)),
            ) matches Outcome::Reply(reply) && if listing.end {
                tells_plus_list(reply, xid, attr, Seq::empty(), true)
            } else {
                tells_attr(reply, xid, nfsstat3::NFS3ERR_SERVERFAULT, known(attr))
            })
            &&& entries.len() > 0 ==> {
                &&& l.next(xid, FsAnswer::Listing(Ok(listing))) matches Outcome::Ask(f)
                &&& told_with_handles(f, context, xid, handles, entries.len()) matches Some(reply)
                &&& if first > maxcount || first + 28 > 2097152 || entry_bytes(entries[0].name@)
                    + 8 > dircount {
                    tells_attr(reply, xid, nfsstat3::NFS3ERR_TOOSMALL, known(attr))
                } else {
                    lists_plus_what_fits(
                        reply,
                        xid,
                        attr,
                        dircount,
                        maxcount,
                        entries,
                        listing.end,
                        views,
                    )
                }
            }
        }),
{
    let s4 = xdr_u32(maxcount) + rest;
    let s3 = xdr_u32(dircount) + s4;
    let s2 = verifier + s3;
    let s1 = xdr_u64(cookie) + s2;
    opaque_round_trip(dir, s1);
    u64_round_trip(cookie, s2);
    opaque8_round_trip(verifier, s3);
    u32_round_trip(dircount, s4);
    u32_round_trip(maxcount, rest);
    lemma_head_lengths(xid, attr);
    lemma_attr_is_told(xid, nfsstat3::NFS3ERR_SERVERFAULT, known(attr), Seq::empty());
    lemma_attr_is_told(xid, stat, known(attr), Seq::empty());
    let entries = listing.entries@;
    let views = |id: fileid3| handles(id)@;
    if entries.len() > 0 {
        let start = filling_from(xid, dircount, maxcount, attr, entries, listing.end);
        lemma_handles_are_asked_for(start, context, xid, handles, entries.len());
        lemma_filling_lists_the_longest_run(
            xid,
            attr,
            dircount,
            maxcount,
            entries,
            listing.end,
            views,
        );
        assert forall|id: fileid3| (#[trigger] views(id)).len() <= u32::MAX by {
            assert(handles(id)@.len() <= u32::MAX);
        }
        lemma_plus_listing_is_told(
            xid,
            attr,
            dircount,
            maxcount,
            entries,
            listing.end,
            views,
        );
    } else {
        let tail = xdr_bool(false) + xdr_bool(true);
        lemma_listing_head_is_told(xid, attr, tail);
        u32_round_trip(0, xdr_bool(true));
        assert(xdr_bool(true) + Seq::<u8>::empty() =~= xdr_bool(true));
        u32_round_trip(1, Seq::empty());
    }
}

} // verus!
