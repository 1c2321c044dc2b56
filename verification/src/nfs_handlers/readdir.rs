//! READDIR, and what it shares with READDIRPLUS.
//!
//! A listing is cut where the client's count or the size of a record would be
//! passed. The entries that are left out are listed by a later call.
use super::dispatch::{is_settled, nearer, NfsCall, Procedure};
use super::{attr_reply, reply_attr, reply_stat, stat_reply, Outcome, Step};
use crate::nfs::{fattr3, fileid3, nfsstat3, post_op_attr};
use crate::nfs_args::{parse_READDIR3args, READDIR3args};
use crate::tcp::MAX_RPC_RECORD_BYTES;
use crate::vfs::{names_encodable, CallContext, DirEntry, FsAnswer, FsRequest, ReadDirResult};
use crate::xdr::{
    write_bool, write_opaque, write_u32, write_u64, xdr_bool, xdr_opaque, xdr_u32, xdr_u64, zeros,
    Input,
};
use vstd::prelude::*;

verus! {

/// The end of a list: a false next-entry discriminator followed by the EOF bool.
pub const DIRECTORY_LIST_TAIL_BYTES: usize = 8;

/// The smallest entry: true discriminator, fileid, empty opaque name, cookie.
pub const MIN_READDIR_ENTRY_BYTES: usize = 24;

/// The smallest READDIRPLUS entry: always a present fattr3 and a present file
/// handle, here with an empty name and an empty handle.
pub const MIN_READDIRPLUS_ENTRY_BYTES: usize = 120;

/// The entries that a listing with attributes must have room for: `.` and `..`.
pub const REQUIRED_ENTRIES: usize = 2;

/// What the required entries and the end of the list fill.
pub const REQUIRED_LIST_BYTES: usize = 64;

/// The length of a reply in front of its result.
pub const RESULT_START: usize = 28;

// -------------------------------------------------------------------- budgets

/// `current` bytes and `added` more leave room for the end of the list.
pub fn fits_with_tail(current: usize, added: usize, limit: usize) -> (r: bool)
    ensures
        r <==> current + added + DIRECTORY_LIST_TAIL_BYTES <= limit,
{
    match current.checked_add(added) {
        None => false,
        Some(bytes) => match bytes.checked_add(DIRECTORY_LIST_TAIL_BYTES) {
            None => false,
            Some(bytes) => bytes <= limit,
        },
    }
}

/// How many entries of the smallest size fit behind `fixed` bytes.
pub open spec fn capacity(limit: nat, fixed: nat, minimum_entry: nat) -> nat {
    if fixed + DIRECTORY_LIST_TAIL_BYTES <= limit {
        ((limit - fixed - DIRECTORY_LIST_TAIL_BYTES) / minimum_entry as int) as nat
    } else {
        0
    }
}

pub fn entry_capacity(limit: usize, fixed: usize, minimum_entry: usize) -> (r: usize)
    requires
        minimum_entry > 0,
    ensures
        r == capacity(limit as nat, fixed as nat, minimum_entry as nat),
{
    match fixed.checked_add(DIRECTORY_LIST_TAIL_BYTES) {
        None => 0,
        Some(used) => if used <= limit {
            (limit - used) / minimum_entry
        } else {
            0
        },
    }
}

/// The smallest count for which a directory is listed whose attributes are known:
/// the required entries fit. Every count from there on is served.
pub open spec fn smallest_listing(head: nat) -> nat {
    head + REQUIRED_LIST_BYTES as nat
}

/// As `capacity`, for the client's own count. With the attributes of a directory
/// in front, none fit below the smallest listing, and from there on the required
/// entries are asked for where no entry of the smallest size would fit.
pub open spec fn client_capacity(
    limit: nat,
    attr: Result<fattr3, nfsstat3>,
    minimum_entry: nat,
) -> nat {
    let head = result_head(attr).len();
    if attr is Err {
        capacity(limit, head, minimum_entry)
    } else if limit < smallest_listing(head) {
        0
    } else if capacity(limit, head, minimum_entry) == 0 {
        REQUIRED_ENTRIES as nat
    } else {
        capacity(limit, head, minimum_entry)
    }
}

pub(crate) fn client_entry_capacity(
    limit: usize,
    attr: &Result<fattr3, nfsstat3>,
    head: usize,
    minimum_entry: usize,
) -> (r: usize)
    requires
        minimum_entry > 0,
        head == result_head(*attr).len(),
    ensures
        r == client_capacity(limit as nat, *attr, minimum_entry as nat),
{
    let room: usize = entry_capacity(limit, head, minimum_entry);
    if attr.is_err() {
        room
    } else if limit < REQUIRED_LIST_BYTES || limit - REQUIRED_LIST_BYTES < head {
        0
    } else if room == 0 {
        REQUIRED_ENTRIES
    } else {
        room
    }
}

pub open spec fn smaller(a: nat, b: nat) -> nat {
    if a <= b {
        a
    } else {
        b
    }
}

// -------------------------------------------------------------------- replies

/// The version of a directory: its time of modification.
pub open spec fn dir_version(attr: Result<fattr3, nfsstat3>) -> Seq<u8> {
    match attr {
        Ok(a) => xdr_u32(a.mtime.seconds) + xdr_u32(a.mtime.nseconds),
        Err(_) => zeros(8),
    }
}

/// The start of the result: the attributes and the version of the directory.
pub open spec fn result_head(attr: Result<fattr3, nfsstat3>) -> Seq<u8> {
    post_op_attr::of_getattr(attr).encoding() + dir_version(attr)
}

/// The start of a reply that lists a directory.
pub open spec fn listing_head(xid: u32, attr: Result<fattr3, nfsstat3>) -> Seq<u8> {
    stat_reply(xid, nfsstat3::NFS3_OK) + result_head(attr)
}

/// The reply of a listing that failed.
pub open spec fn listing_error(
    xid: u32,
    stat: nfsstat3,
    attr: Result<fattr3, nfsstat3>,
) -> Seq<u8> {
    attr_reply(xid, stat, post_op_attr::of_getattr(attr))
}

/// The start of a listing fills 28 bytes in front of the result, and at most 96
/// of the result.
pub proof fn lemma_head_lengths(xid: u32, attr: Result<fattr3, nfsstat3>)
    ensures
        listing_head(xid, attr).len() == RESULT_START + result_head(attr).len(),
        stat_reply(xid, nfsstat3::NFS3_OK).len() == RESULT_START,
        attr is Ok ==> result_head(attr).len() == 96,
        attr is Err ==> result_head(attr).len() == 12,
{
    broadcast use crate::xdr::group_xdr_lengths;

}

pub(crate) fn write_readdir_error(
    xid: u32,
    status: nfsstat3,
    attr: &Result<fattr3, nfsstat3>,
) -> (out: Vec<u8>)
    ensures
        out@ == listing_error(xid, status, *attr),
{
    reply_attr(xid, status, post_op_attr::from_getattr(attr))
}

pub(crate) fn write_listing_head(xid: u32, attr: &Result<fattr3, nfsstat3>) -> (out: Vec<u8>)
    ensures
        out@ == listing_head(xid, *attr),
        out@.len() == RESULT_START + result_head(*attr).len(),
        result_head(*attr).len() <= 96,
{
    let mut out = reply_stat(xid, nfsstat3::NFS3_OK);
    post_op_attr::from_getattr(attr).serialize(&mut out);
    match attr {
        Ok(a) => {
            write_u32(&mut out, a.mtime.seconds);
            write_u32(&mut out, a.mtime.nseconds);
        },
        Err(_) => {
            write_u64(&mut out, 0);
            proof {
                reveal(xdr_u32);
                reveal(xdr_u64);
                assert(xdr_u64(0) =~= zeros(8));
            }
        },
    }
    assert(out@ =~= listing_head(xid, *attr));
    proof {
        lemma_head_lengths(xid, *attr);
    }
    out
}

/// An entry on the wire, with the discriminator in front of it.
pub open spec fn xdr_entry3(fileid: fileid3, name: Seq<u8>, cookie: u64) -> Seq<u8> {
    xdr_bool(true) + xdr_u64(fileid) + xdr_opaque(name) + xdr_u64(cookie)
}

pub(crate) fn write_entry3(out: &mut Vec<u8>, fileid: fileid3, name: &Vec<u8>, cookie: u64)
    requires
        name@.len() <= u32::MAX,
    ensures
        final(out)@ == old(out)@ + xdr_entry3(fileid, name@, cookie),
{
    write_bool(out, true);
    write_u64(out, fileid);
    write_opaque(out, name);
    write_u64(out, cookie);
    assert(out@ =~= old(out)@ + xdr_entry3(fileid, name@, cookie));
}

// ------------------------------------------------------------------- cutting

/// The first `n` of the encoded entries, one behind the other.
pub open spec fn joined(entries: Seq<Seq<u8>>, n: nat) -> Seq<u8>
    decreases n,
{
    if n == 0 {
        Seq::empty()
    } else {
        joined(entries, (n - 1) as nat) + entries[n - 1]
    }
}

/// The first `n` of the encoded entries and the end of the list stay within the
/// limit, behind `used` bytes.
pub open spec fn within(entries: Seq<Seq<u8>>, n: nat, used: nat, limit: nat) -> bool {
    used + joined(entries, n).len() + DIRECTORY_LIST_TAIL_BYTES <= limit
}

/// The first `n` of the encoded entries stay within the client's count and
/// within a record, behind a result head of `head` bytes.
pub open spec fn listable(entries: Seq<Seq<u8>>, n: nat, head: nat, limit: nat) -> bool {
    within(entries, n, head, limit) && within(
        entries,
        n,
        RESULT_START as nat + head,
        MAX_RPC_RECORD_BYTES as nat,
    )
}

/// How many of the encoded entries are listed, if the first `n` are.
pub open spec fn listed(entries: Seq<Seq<u8>>, head: nat, limit: nat, n: nat) -> nat
    decreases entries.len() - n,
{
    if n < entries.len() && listable(entries, n + 1, head, limit) {
        listed(entries, head, limit, n + 1)
    } else {
        n
    }
}

/// The entries of READDIR on the wire.
pub open spec fn xdr_entries(entries: Seq<DirEntry>) -> Seq<Seq<u8>> {
    Seq::new(
        entries.len(),
        |i: int| xdr_entry3(entries[i].fileid, entries[i].name@, entries[i].cookie),
    )
}

/// How many entries READDIR asks for.
pub open spec fn readdir_entries(attr: Result<fattr3, nfsstat3>, dircount: u32) -> nat {
    let head = result_head(attr).len();
    smaller(
        client_capacity(dircount as nat, attr, MIN_READDIR_ENTRY_BYTES as nat),
        capacity(
            MAX_RPC_RECORD_BYTES as nat,
            RESULT_START as nat + head,
            MIN_READDIR_ENTRY_BYTES as nat,
        ),
    )
}

/// The reply of READDIR to what the file system listed.
pub open spec fn readdir_reply(
    xid: u32,
    attr: Result<fattr3, nfsstat3>,
    dircount: u32,
    entries: Seq<DirEntry>,
    end: bool,
) -> Seq<u8> {
    let encoded = xdr_entries(entries);
    let n = listed(encoded, result_head(attr).len(), dircount as nat, 0);
    if entries.len() == 0 && !end {
        listing_error(xid, nfsstat3::NFS3ERR_SERVERFAULT, attr)
    } else if n == 0 && entries.len() > 0 {
        listing_error(xid, nfsstat3::NFS3ERR_TOOSMALL, attr)
    } else {
        listing_head(xid, attr) + joined(encoded, n) + xdr_bool(false) + xdr_bool(
            n == entries.len() && end,
        )
    }
}

fn write_listing(
    xid: u32,
    attr: &Result<fattr3, nfsstat3>,
    dircount: u32,
    listing: &ReadDirResult,
) -> (out: Vec<u8>)
    requires
        names_encodable(listing.entries@),
    ensures
        out@ == readdir_reply(xid, *attr, dircount, listing.entries@, listing.end),
{
    let count: usize = listing.entries.len();
    if count == 0 && !listing.end {
        return write_readdir_error(xid, nfsstat3::NFS3ERR_SERVERFAULT, attr);
    }
    let limit: usize = dircount as usize;
    let mut out = write_listing_head(xid, attr);
    let ghost encoded = xdr_entries(listing.entries@);
    let ghost head = result_head(*attr).len();
    let mut i: usize = 0;
    assert(out@ =~= listing_head(xid, *attr) + joined(encoded, 0));
    while i < count
        invariant_except_break
            listed(encoded, head, limit as nat, 0) == listed(encoded, head, limit as nat, i as nat),
        invariant
            i <= count,
            count == listing.entries@.len(),
            names_encodable(listing.entries@),
            encoded == xdr_entries(listing.entries@),
            limit == dircount,
            head == result_head(*attr).len(),
            listing_head(xid, *attr).len() == RESULT_START + head,
            out@ == listing_head(xid, *attr) + joined(encoded, i as nat),
        ensures
            i == listed(encoded, head, limit as nat, 0),
        decreases count - i,
    {
        let entry = &listing.entries[i];
        let mut bytes: Vec<u8> = Vec::new();
        write_entry3(&mut bytes, entry.fileid, &entry.name.0, entry.cookie);
        assert(bytes@ =~= encoded[i as int]);
        if !(fits_with_tail(out.len() - RESULT_START, bytes.len(), limit) && fits_with_tail(
            out.len(),
            bytes.len(),
            MAX_RPC_RECORD_BYTES,
        )) {
            break ;
        }
        out.append(&mut bytes);
        assert(out@ =~= listing_head(xid, *attr) + joined(encoded, (i + 1) as nat));
        i = i + 1;
    }
    if i == 0 && count > 0 {
        return write_readdir_error(xid, nfsstat3::NFS3ERR_TOOSMALL, attr);
    }
    write_bool(&mut out, false);
    write_bool(&mut out, i == count && listing.end);
    out
}

// -------------------------------------------------------------------- READDIR

/// A READDIR call that is being served.
pub enum ReaddirCall {
    Handle { args: READDIR3args },
    Attr { dirid: fileid3, cookie: u64, dircount: u32 },
    List {
        dirid: fileid3,
        cookie: u64,
        dircount: u32,
        attr: Result<fattr3, nfsstat3>,
        max_entries: usize,
    },
}

/// How READDIR starts on its encoded arguments.
pub open spec fn readdir_starts(s: Seq<u8>, r: Step<ReaddirCall>) -> bool {
    match parse_READDIR3args(s) {
        Ok((v, _)) => r matches Step::Ask(ReaddirCall::Handle { args }) && args@ == v,
        Err(e) => r == Step::<ReaddirCall>::Fail(e),
    }
}

/// Starts READDIR.
pub fn nfsproc3_readdir(input: Input) -> (r: Step<ReaddirCall>)
    ensures
        readdir_starts(input@, r),
{
    let mut input = input;
    match READDIR3args::deserialize(&mut input) {
        Ok(args) => Step::Ask(ReaddirCall::Handle { args }),
        Err(e) => Step::Fail(e),
    }
}

impl ReaddirCall {
    /// How many answers at most it takes after the next one.
    pub open spec fn remaining(self) -> nat {
        match self {
            ReaddirCall::Handle { .. } => 2,
            ReaddirCall::Attr { .. } => 1,
            ReaddirCall::List { .. } => 0,
        }
    }

    /// It changes nothing any more.
    pub open spec fn settled(self) -> bool {
        true
    }
}

impl Procedure for ReaddirCall {
    open spec fn starts(xid: u32, s: Seq<u8>, r: Step<ReaddirCall>) -> bool {
        readdir_starts(s, r)
    }

    open spec fn asks<'a>(&'a self, context: &'a CallContext) -> FsRequest<'a> {
        match self {
            ReaddirCall::Handle { args } => FsRequest::FhToId { handle: &args.dir },
            ReaddirCall::Attr { dirid, .. } => FsRequest::Getattr {
                auth: &context.auth,
                id: *dirid,
            },
            ReaddirCall::List { dirid, cookie, max_entries, .. } => FsRequest::Readdir {
                auth: &context.auth,
                dirid: *dirid,
                start_after: *cookie,
                max_entries: *max_entries,
            },
        }
    }

    open spec fn next(self, xid: u32, answer: FsAnswer) -> Outcome<ReaddirCall> {
        match (self, answer) {
            (ReaddirCall::Handle { args }, FsAnswer::Id(Ok(dirid))) => Outcome::Ask(
                ReaddirCall::Attr { dirid, cookie: args.cookie, dircount: args.dircount },
            ),
            (ReaddirCall::Handle { .. }, FsAnswer::Id(Err(stat))) => Outcome::Reply(
                attr_reply(xid, stat, post_op_attr::Void),
            ),
            (ReaddirCall::Attr { dirid, cookie, dircount }, FsAnswer::Attr(attr)) =>
                if readdir_entries(attr, dircount) == 0 {
                    Outcome::Reply(listing_error(xid, nfsstat3::NFS3ERR_TOOSMALL, attr))
                } else {
                    Outcome::Ask(
                        ReaddirCall::List {
                            dirid,
                            cookie,
                            dircount,
                            attr,
                            max_entries: readdir_entries(attr, dircount) as usize,
                        },
                    )
                },
            (ReaddirCall::List { attr, dircount, .. }, FsAnswer::Listing(Ok(listing))) =>
                Outcome::Reply(
                    readdir_reply(xid, attr, dircount, listing.entries@, listing.end),
                ),
            (ReaddirCall::List { attr, .. }, FsAnswer::Listing(Err(stat))) => Outcome::Reply(
                listing_error(xid, stat, attr),
            ),
            _ => Outcome::Unexpected,
        }
    }

    open spec fn encodable(self) -> bool {
        true
    }

    open spec fn as_call(self) -> NfsCall {
        NfsCall::Readdir(self)
    }

    fn start(xid: u32, input: Input) -> (r: Step<ReaddirCall>) {
        nfsproc3_readdir(input)
    }

    fn request<'a>(&'a self, context: &'a CallContext) -> (r: FsRequest<'a>) {
        match self {
            ReaddirCall::Handle { args } => FsRequest::FhToId { handle: &args.dir },
            ReaddirCall::Attr { dirid, .. } => FsRequest::Getattr {
                auth: &context.auth,
                id: *dirid,
            },
            ReaddirCall::List { dirid, cookie, max_entries, .. } => FsRequest::Readdir {
                auth: &context.auth,
                dirid: *dirid,
                start_after: *cookie,
                max_entries: *max_entries,
            },
        }
    }

    fn resume(self, xid: u32, answer: FsAnswer) -> (r: Step<ReaddirCall>) {
        match (self, answer) {
            (ReaddirCall::Handle { args }, FsAnswer::Id(Ok(dirid))) => Step::Ask(
                ReaddirCall::Attr { dirid, cookie: args.cookie, dircount: args.dircount },
            ),
            (ReaddirCall::Handle { .. }, FsAnswer::Id(Err(stat))) => Step::Reply(
                reply_attr(xid, stat, post_op_attr::Void),
            ),
            (ReaddirCall::Attr { dirid, cookie, dircount }, FsAnswer::Attr(attr)) => {
                let start: usize = write_listing_head(xid, &attr).len();
                let client: usize = client_entry_capacity(
                    dircount as usize,
                    &attr,
                    start - RESULT_START,
                    MIN_READDIR_ENTRY_BYTES,
                );
                let wire: usize = entry_capacity(
                    MAX_RPC_RECORD_BYTES,
                    start,
                    MIN_READDIR_ENTRY_BYTES,
                );
                let max_entries: usize = if client <= wire {
                    client
                } else {
                    wire
                };
                if max_entries == 0 {
                    Step::Reply(write_readdir_error(xid, nfsstat3::NFS3ERR_TOOSMALL, &attr))
                } else {
                    Step::Ask(ReaddirCall::List { dirid, cookie, dircount, attr, max_entries })
                }
            },
            (ReaddirCall::List { attr, dircount, .. }, FsAnswer::Listing(Ok(listing))) =>
                Step::Reply(write_listing(xid, &attr, dircount, &listing)),
            (ReaddirCall::List { attr, .. }, FsAnswer::Listing(Err(stat))) => Step::Reply(
                write_readdir_error(xid, stat, &attr),
            ),
            _ => Step::Unexpected,
        }
    }

    fn into_call(self) -> (r: NfsCall) {
        NfsCall::Readdir(self)
    }

    proof fn fitting_answer_is_expected(self, context: CallContext, xid: u32, answer: FsAnswer) {
    }

    proof fn answer_brings_reply_nearer(self, xid: u32, answer: FsAnswer) {
        reveal(nearer);
    }

    proof fn changes_at_most_once(self, context: CallContext, xid: u32, answer: FsAnswer) {
        reveal(is_settled);
    }

    proof fn asks_for_the_caller(self, context: CallContext) {
    }
}

// ----------------------------------------------------------------------- laws

/// What is listed is listable, and it is the most that is: one entry more would
/// pass the client's count or the size of a record.
pub proof fn lemma_listed_is_longest(entries: Seq<Seq<u8>>, head: nat, limit: nat, n: nat)
    requires
        n <= entries.len(),
    ensures
        n <= listed(entries, head, limit, n) <= entries.len(),
        listed(entries, head, limit, n) > n ==> listable(
            entries,
            listed(entries, head, limit, n),
            head,
            limit,
        ),
        listed(entries, head, limit, n) < entries.len() ==> !listable(
            entries,
            listed(entries, head, limit, n) + 1,
            head,
            limit,
        ),
    decreases entries.len() - n,
{
    if n < entries.len() && listable(entries, n + 1, head, limit) {
        lemma_listed_is_longest(entries, head, limit, n + 1);
    }
}

/// `.`, `..` and the end of the list fill what is required of a count, whatever
/// their ids and cookies.
pub proof fn lemma_required_list(a: DirEntry, b: DirEntry)
    requires
        a.name@.len() == 1,
        b.name@.len() == 2,
    ensures
        joined(xdr_entries(seq![a, b]), 2).len() + DIRECTORY_LIST_TAIL_BYTES == REQUIRED_LIST_BYTES,
{
    broadcast use crate::xdr::group_xdr_lengths;

    reveal_with_fuel(joined, 3);
}

/// The smallest count for which READDIR lists. With attributes it is where the
/// required entries fit, without them where one entry of the smallest size does.
pub open spec fn readdir_minimum(attr: Result<fattr3, nfsstat3>) -> nat {
    if attr is Ok {
        160
    } else {
        44
    }
}

/// A count is refused without asking for entries if and only if it is below the
/// smallest one. With attributes, room for the required entries is asked for at
/// least; without them, as many entries are asked for as may fit.
pub proof fn lemma_smallest_listing(attr: Result<fattr3, nfsstat3>, dircount: u32)
    ensures
        attr is Ok ==> readdir_minimum(attr) == smallest_listing(result_head(attr).len()),
        readdir_entries(attr, dircount) == 0 <==> dircount < readdir_minimum(attr),
        attr is Ok && dircount >= readdir_minimum(attr) ==> readdir_entries(attr, dircount)
            >= REQUIRED_ENTRIES,
        readdir_entries(attr, dircount) <= MAX_RPC_RECORD_BYTES / MIN_READDIR_ENTRY_BYTES,
{
    lemma_head_lengths(0, attr);
}

/// Of a count that is not refused, no reply of READDIR uses more than the client
/// allows for the result, nor more than a record holds.
pub proof fn lemma_readdir_reply_fits(
    xid: u32,
    attr: Result<fattr3, nfsstat3>,
    dircount: u32,
    entries: Seq<DirEntry>,
    end: bool,
)
    requires
        dircount >= readdir_minimum(attr),
    ensures
        readdir_reply(xid, attr, dircount, entries, end).len() <= RESULT_START + dircount,
        readdir_reply(xid, attr, dircount, entries, end).len() <= MAX_RPC_RECORD_BYTES,
{
    broadcast use crate::xdr::group_xdr_lengths;

    lemma_head_lengths(xid, attr);
    let encoded = xdr_entries(entries);
    lemma_listed_is_longest(encoded, result_head(attr).len(), dircount as nat, 0);
}

} // verus!
