//! READDIRPLUS: entries with their attributes and handles.
//!
//! The handle of an entry is asked for when the entry is reached, so none is
//! asked for behind the entry at which the listing is cut.
use super::readdir::{
    capacity, client_capacity, client_entry_capacity, entry_capacity, fits_with_tail, joined,
    lemma_head_lengths, listable, listing_error, listing_head, result_head, smaller, within,
    write_entry3, write_listing_head, write_readdir_error, xdr_entry3,
    DIRECTORY_LIST_TAIL_BYTES, MIN_READDIRPLUS_ENTRY_BYTES, MIN_READDIR_ENTRY_BYTES,
    REQUIRED_ENTRIES, RESULT_START,
};
use super::{attr_reply, reply_attr, Outcome, Step};
use crate::nfs::{fattr3, fileid3, nfs_fh3, nfsstat3, post_op_attr, post_op_fh3, present_handle};
use crate::nfs_args::{parse_READDIRPLUS3args, READDIRPLUS3args};
use crate::tcp::MAX_RPC_RECORD_BYTES;
use crate::vfs::{names_encodable, CallContext, DirEntry, FsAnswer, FsRequest, ReadDirResult};
use crate::xdr::{concat_assoc, write_bool, xdr_bool, Input};
use vstd::prelude::*;

verus! {

// -------------------------------------------------------------------- entries

/// An entry without attributes and handle, by which it is charged to the
/// client's directory count. The file is the one that the attributes name.
pub open spec fn plain_entry(entry: DirEntry) -> Seq<u8> {
    xdr_entry3(entry.attr.fileid, entry.name@, entry.cookie)
}

/// An entry on the wire.
pub open spec fn plus_entry(entry: DirEntry, handle: Seq<u8>) -> Seq<u8> {
    plain_entry(entry) + post_op_attr::attributes(entry.attr).encoding() + present_handle(handle)
}

/// The entry on the wire, and the length of its plain form.
fn write_plus_entry(entry: &DirEntry, handle: nfs_fh3) -> (r: (Vec<u8>, usize))
    requires
        entry.name@.len() <= u32::MAX,
        handle@.len() <= u32::MAX,
    ensures
        r.0@ == plus_entry(*entry, handle@),
        r.1 == plain_entry(*entry).len(),
{
    let mut out: Vec<u8> = Vec::new();
    write_entry3(&mut out, entry.attr.fileid, &entry.name.0, entry.cookie);
    assert(out@ =~= plain_entry(*entry));
    let plain_len: usize = out.len();
    post_op_attr::attributes(entry.attr).serialize(&mut out);
    post_op_fh3::handle(handle).serialize(&mut out);
    (out, plain_len)
}

/// How many entries READDIRPLUS asks for.
pub open spec fn readdirplus_entries(
    attr: Result<fattr3, nfsstat3>,
    dircount: u32,
    maxcount: u32,
) -> nat {
    let head = result_head(attr).len();
    smaller(
        smaller(
            client_capacity(maxcount as nat, attr, MIN_READDIRPLUS_ENTRY_BYTES as nat),
            capacity(
                MAX_RPC_RECORD_BYTES as nat,
                RESULT_START as nat + head,
                MIN_READDIRPLUS_ENTRY_BYTES as nat,
            ),
        ),
        capacity(dircount as nat, 0, MIN_READDIR_ENTRY_BYTES as nat),
    )
}

/// The end of a listing.
pub open spec fn listing_tail(eof: bool) -> Seq<u8> {
    xdr_bool(false) + xdr_bool(eof)
}

fn write_listing_tail(out: &mut Vec<u8>, eof: bool)
    ensures
        final(out)@ == old(out)@ + listing_tail(eof),
{
    write_bool(out, false);
    write_bool(out, eof);
    proof {
        concat_assoc(old(out)@, xdr_bool(false), xdr_bool(eof));
    }
}

// -------------------------------------------------------------------- filling

/// A listing that is being filled, entry by entry.
pub struct Filling {
    dircount: u32,
    maxcount: u32,
    attr: Result<fattr3, nfsstat3>,
    listing: ReadDirResult,
    /// The reply so far.
    reply: Vec<u8>,
    /// What is charged to the directory count so far.
    charged: usize,
    /// How many entries are in the reply.
    written: usize,
}

/// What is known of a listing that is being filled.
pub struct FillingView {
    pub dircount: u32,
    pub maxcount: u32,
    pub attr: Result<fattr3, nfsstat3>,
    pub entries: Seq<DirEntry>,
    pub end: bool,
    pub reply: Seq<u8>,
    pub charged: nat,
    pub written: nat,
}

impl View for Filling {
    type V = FillingView;

    closed spec fn view(&self) -> FillingView {
        FillingView {
            dircount: self.dircount,
            maxcount: self.maxcount,
            attr: self.attr,
            entries: self.listing.entries@,
            end: self.listing.end,
            reply: self.reply@,
            charged: self.charged as nat,
            written: self.written as nat,
        }
    }
}

impl FillingView {
    /// The entry that is reached next.
    pub open spec fn entry(self) -> DirEntry {
        self.entries[self.written as int]
    }

    /// With the handle of the next entry, that entry still fits: the result into
    /// the client's count, the reply into a record, and the plain entries into
    /// the client's directory count.
    pub open spec fn fits(self, handle: Seq<u8>) -> bool {
        let added = plus_entry(self.entry(), handle).len();
        &&& self.reply.len() - RESULT_START + added + DIRECTORY_LIST_TAIL_BYTES <= self.maxcount
        &&& self.reply.len() + added + DIRECTORY_LIST_TAIL_BYTES <= MAX_RPC_RECORD_BYTES
        &&& self.charged + plain_entry(self.entry()).len() + DIRECTORY_LIST_TAIL_BYTES
            <= self.dircount
    }

    /// The listing with the next entry in it.
    pub open spec fn with_entry(self, handle: Seq<u8>) -> FillingView {
        FillingView {
            reply: self.reply + plus_entry(self.entry(), handle),
            charged: self.charged + plain_entry(self.entry()).len(),
            written: self.written + 1,
            ..self
        }
    }

    /// The reply, once no entry follows.
    pub open spec fn finished(self) -> Seq<u8> {
        self.reply + listing_tail(self.written == self.entries.len() && self.end)
    }

    pub open spec fn next(self, xid: u32, handle: Seq<u8>) -> Outcome<FillingView> {
        if self.fits(handle) {
            let more = self.with_entry(handle);
            if more.written < more.entries.len() {
                Outcome::Ask(more)
            } else {
                Outcome::Reply(more.finished())
            }
        } else if self.written == 0 {
            Outcome::Reply(listing_error(xid, nfsstat3::NFS3ERR_TOOSMALL, self.attr))
        } else {
            Outcome::Reply(self.finished())
        }
    }
}

impl Filling {
    #[verifier::type_invariant]
    spec fn valid(self) -> bool {
        &&& self.written < self.listing.entries@.len()
        &&& names_encodable(self.listing.entries@)
        &&& self.reply@.len() >= RESULT_START
    }

    fn new(
        xid: u32,
        dircount: u32,
        maxcount: u32,
        attr: Result<fattr3, nfsstat3>,
        listing: ReadDirResult,
    ) -> (r: Filling)
        requires
            listing.entries@.len() > 0,
            names_encodable(listing.entries@),
        ensures
            r@ == filling_from(xid, dircount, maxcount, attr, listing.entries@, listing.end),
    {
        let reply = write_listing_head(xid, &attr);
        Filling { dircount, maxcount, attr, listing, reply, charged: 0, written: 0 }
    }

    /// The file whose handle is needed next.
    fn file(&self) -> (id: fileid3)
        ensures
            id == self@.entry().fileid,
    {
        proof {
            use_type_invariant(self);
        }
        self.listing.entries[self.written].fileid
    }

    fn fill(self, xid: u32, handle: nfs_fh3) -> (r: Step<Filling>)
        requires
            handle@.len() <= u32::MAX,
        ensures
            filled(r) == self@.next(xid, handle@),
    {
        proof {
            use_type_invariant(&self);
        }
        let Filling { dircount, maxcount, attr, listing, reply, charged, written } = self;
        let mut reply = reply;
        let (plus, plain_len) = write_plus_entry(&listing.entries[written], handle);
        let mut plus = plus;
        if fits_with_tail(reply.len() - RESULT_START, plus.len(), maxcount as usize)
            && fits_with_tail(reply.len(), plus.len(), MAX_RPC_RECORD_BYTES) && fits_with_tail(
            charged,
            plain_len,
            dircount as usize,
        ) {
            reply.append(&mut plus);
            let charged: usize = charged + plain_len;
            assert(written < listing.entries.len());
            let written: usize = written + 1;
            if written < listing.entries.len() {
                Step::Ask(
                    Filling { dircount, maxcount, attr, listing, reply, charged, written },
                )
            } else {
                write_listing_tail(&mut reply, listing.end);
                Step::Reply(reply)
            }
        } else if written == 0 {
            Step::Reply(write_readdir_error(xid, nfsstat3::NFS3ERR_TOOSMALL, &attr))
        } else {
            write_listing_tail(&mut reply, false);
            Step::Reply(reply)
        }
    }
}

/// A listing of which nothing is filled yet.
pub open spec fn filling_from(
    xid: u32,
    dircount: u32,
    maxcount: u32,
    attr: Result<fattr3, nfsstat3>,
    entries: Seq<DirEntry>,
    end: bool,
) -> FillingView {
    FillingView {
        dircount,
        maxcount,
        attr,
        entries,
        end,
        reply: listing_head(xid, attr),
        charged: 0,
        written: 0,
    }
}

/// A step of filling, by the views.
pub open spec fn filled(step: Step<Filling>) -> Outcome<FillingView> {
    match step {
        Step::Reply(bytes) => Outcome::Reply(bytes@),
        Step::Ask(filling) => Outcome::Ask(filling@),
        Step::Fail(e) => Outcome::Fail(e),
        Step::Unexpected => Outcome::Unexpected,
    }
}

// ---------------------------------------------------------------- READDIRPLUS

/// A READDIRPLUS call that is being served.
pub enum ReaddirplusCall {
    Handle { args: READDIRPLUS3args },
    Attr { dirid: fileid3, cookie: u64, dircount: u32, maxcount: u32 },
    List {
        dirid: fileid3,
        cookie: u64,
        dircount: u32,
        maxcount: u32,
        attr: Result<fattr3, nfsstat3>,
        max_entries: usize,
    },
    Fill { filling: Filling },
}

/// The states of a READDIRPLUS call.
pub enum ReaddirplusView {
    Handle { args: READDIRPLUS3args },
    Attr { dirid: fileid3, cookie: u64, dircount: u32, maxcount: u32 },
    List {
        dirid: fileid3,
        cookie: u64,
        dircount: u32,
        maxcount: u32,
        attr: Result<fattr3, nfsstat3>,
        max_entries: usize,
    },
    Fill { filling: FillingView },
}

impl View for ReaddirplusCall {
    type V = ReaddirplusView;

    open spec fn view(&self) -> ReaddirplusView {
        match *self {
            ReaddirplusCall::Handle { args } => ReaddirplusView::Handle { args },
            ReaddirplusCall::Attr { dirid, cookie, dircount, maxcount } => ReaddirplusView::Attr {
                dirid,
                cookie,
                dircount,
                maxcount,
            },
            ReaddirplusCall::List { dirid, cookie, dircount, maxcount, attr, max_entries } =>
                ReaddirplusView::List { dirid, cookie, dircount, maxcount, attr, max_entries },
            ReaddirplusCall::Fill { filling } => ReaddirplusView::Fill { filling: filling@ },
        }
    }
}

/// A step of READDIRPLUS, by the views.
pub open spec fn plus_step(step: Step<ReaddirplusCall>) -> Outcome<ReaddirplusView> {
    match step {
        Step::Reply(bytes) => Outcome::Reply(bytes@),
        Step::Ask(call) => Outcome::Ask(call@),
        Step::Fail(e) => Outcome::Fail(e),
        Step::Unexpected => Outcome::Unexpected,
    }
}

/// How READDIRPLUS starts on its encoded arguments.
pub open spec fn readdirplus_starts(s: Seq<u8>, r: Step<ReaddirplusCall>) -> bool {
    match parse_READDIRPLUS3args(s) {
        Ok((v, _)) => r matches Step::Ask(ReaddirplusCall::Handle { args }) && args@ == v,
        Err(e) => r == Step::<ReaddirplusCall>::Fail(e),
    }
}

/// Starts READDIRPLUS.
pub fn nfsproc3_readdirplus(input: Input) -> (r: Step<ReaddirplusCall>)
    ensures
        readdirplus_starts(input@, r),
{
    let mut input = input;
    match READDIRPLUS3args::deserialize(&mut input) {
        Ok(args) => Step::Ask(ReaddirplusCall::Handle { args }),
        Err(e) => Step::Fail(e),
    }
}

impl ReaddirplusView {
    pub open spec fn asks<'a>(&'a self, context: &'a CallContext) -> FsRequest<'a> {
        match self {
            ReaddirplusView::Handle { args } => FsRequest::FhToId { handle: &args.dir },
            ReaddirplusView::Attr { dirid, .. } => FsRequest::Getattr {
                auth: &context.auth,
                id: *dirid,
            },
            ReaddirplusView::List { dirid, cookie, max_entries, .. } => FsRequest::Readdir {
                auth: &context.auth,
                dirid: *dirid,
                start_after: *cookie,
                max_entries: *max_entries,
            },
            ReaddirplusView::Fill { filling } => FsRequest::IdToFh { id: filling.entry().fileid },
        }
    }

    pub open spec fn next(self, xid: u32, answer: FsAnswer) -> Outcome<ReaddirplusView> {
        match (self, answer) {
            (ReaddirplusView::Handle { args }, FsAnswer::Id(Ok(dirid))) => Outcome::Ask(
                ReaddirplusView::Attr {
                    dirid,
                    cookie: args.cookie,
                    dircount: args.dircount,
                    maxcount: args.maxcount,
                },
            ),
            (ReaddirplusView::Handle { .. }, FsAnswer::Id(Err(stat))) => Outcome::Reply(
                attr_reply(xid, stat, post_op_attr::Void),
            ),
            (
                ReaddirplusView::Attr { dirid, cookie, dircount, maxcount },
                FsAnswer::Attr(attr),
            ) => {
                let n = readdirplus_entries(attr, dircount, maxcount);
                if n == 0 {
                    Outcome::Reply(listing_error(xid, nfsstat3::NFS3ERR_TOOSMALL, attr))
                } else {
                    Outcome::Ask(
                        ReaddirplusView::List {
                            dirid,
                            cookie,
                            dircount,
                            maxcount,
                            attr,
                            max_entries: n as usize,
                        },
                    )
                }
            },
            (
                ReaddirplusView::List { dircount, maxcount, attr, .. },
                FsAnswer::Listing(Ok(listing)),
            ) => if listing.entries@.len() > 0 {
                Outcome::Ask(
                    ReaddirplusView::Fill {
                        filling: filling_from(
                            xid,
                            dircount,
                            maxcount,
                            attr,
                            listing.entries@,
                            listing.end,
                        ),
                    },
                )
            } else if listing.end {
                Outcome::Reply(listing_head(xid, attr) + listing_tail(true))
            } else {
                Outcome::Reply(listing_error(xid, nfsstat3::NFS3ERR_SERVERFAULT, attr))
            },
            (ReaddirplusView::List { attr, .. }, FsAnswer::Listing(Err(stat))) => Outcome::Reply(
                listing_error(xid, stat, attr),
            ),
            (ReaddirplusView::Fill { filling }, FsAnswer::Handle(fh)) => match filling.next(
                xid,
                fh@,
            ) {
                Outcome::Ask(filling) => Outcome::Ask(ReaddirplusView::Fill { filling }),
                Outcome::Reply(bytes) => Outcome::Reply(bytes),
                Outcome::Fail(e) => Outcome::Fail(e),
                Outcome::Unexpected => Outcome::Unexpected,
            },
            _ => Outcome::Unexpected,
        }
    }
}

impl ReaddirplusCall {
    pub fn request<'a>(&'a self, context: &'a CallContext) -> (r: FsRequest<'a>)
        ensures
            r == self@.asks(context),
    {
        match self {
            ReaddirplusCall::Handle { args } => FsRequest::FhToId { handle: &args.dir },
            ReaddirplusCall::Attr { dirid, .. } => FsRequest::Getattr {
                auth: &context.auth,
                id: *dirid,
            },
            ReaddirplusCall::List { dirid, cookie, max_entries, .. } => FsRequest::Readdir {
                auth: &context.auth,
                dirid: *dirid,
                start_after: *cookie,
                max_entries: *max_entries,
            },
            ReaddirplusCall::Fill { filling } => FsRequest::IdToFh { id: filling.file() },
        }
    }

    pub fn resume(self, xid: u32, answer: FsAnswer) -> (r: Step<ReaddirplusCall>)
        requires
            answer.encodable(),
        ensures
            plus_step(r) == self@.next(xid, answer),
    {
        match (self, answer) {
            (ReaddirplusCall::Handle { args }, FsAnswer::Id(Ok(dirid))) => Step::Ask(
                ReaddirplusCall::Attr {
                    dirid,
                    cookie: args.cookie,
                    dircount: args.dircount,
                    maxcount: args.maxcount,
                },
            ),
            (ReaddirplusCall::Handle { .. }, FsAnswer::Id(Err(stat))) => Step::Reply(
                reply_attr(xid, stat, post_op_attr::Void),
            ),
            (
                ReaddirplusCall::Attr { dirid, cookie, dircount, maxcount },
                FsAnswer::Attr(attr),
            ) => {
                let start: usize = write_listing_head(xid, &attr).len();
                let client: usize = client_entry_capacity(
                    maxcount as usize,
                    &attr,
                    start - RESULT_START,
                    MIN_READDIRPLUS_ENTRY_BYTES,
                );
                let wire: usize = entry_capacity(
                    MAX_RPC_RECORD_BYTES,
                    start,
                    MIN_READDIRPLUS_ENTRY_BYTES,
                );
                let plain: usize = entry_capacity(dircount as usize, 0, MIN_READDIR_ENTRY_BYTES);
                let mut max_entries: usize = client;
                if wire < max_entries {
                    max_entries = wire;
                }
                if plain < max_entries {
                    max_entries = plain;
                }
                if max_entries == 0 {
                    Step::Reply(write_readdir_error(xid, nfsstat3::NFS3ERR_TOOSMALL, &attr))
                } else {
                    Step::Ask(
                        ReaddirplusCall::List {
                            dirid,
                            cookie,
                            dircount,
                            maxcount,
                            attr,
                            max_entries,
                        },
                    )
                }
            },
            (
                ReaddirplusCall::List { dircount, maxcount, attr, .. },
                FsAnswer::Listing(Ok(listing)),
            ) => if listing.entries.len() > 0 {
                Step::Ask(
                    ReaddirplusCall::Fill {
                        filling: Filling::new(xid, dircount, maxcount, attr, listing),
                    },
                )
            } else if listing.end {
                let mut out = write_listing_head(xid, &attr);
                write_listing_tail(&mut out, true);
                Step::Reply(out)
            } else {
                Step::Reply(write_readdir_error(xid, nfsstat3::NFS3ERR_SERVERFAULT, &attr))
            },
            (ReaddirplusCall::List { attr, .. }, FsAnswer::Listing(Err(stat))) => Step::Reply(
                write_readdir_error(xid, stat, &attr),
            ),
            (ReaddirplusCall::Fill { filling }, FsAnswer::Handle(fh)) => match filling.fill(
                xid,
                fh,
            ) {
                Step::Ask(filling) => Step::Ask(ReaddirplusCall::Fill { filling }),
                Step::Reply(bytes) => Step::Reply(bytes),
                Step::Fail(e) => Step::Fail(e),
                Step::Unexpected => Step::Unexpected,
            },
            _ => Step::Unexpected,
        }
    }
}

// ----------------------------------------------------------------------- laws

/// The listing of a file system whose handles are given by `handles`, from a
/// state of filling on.
pub open spec fn filled_reply(
    filling: FillingView,
    xid: u32,
    handles: spec_fn(fileid3) -> Seq<u8>,
) -> Seq<u8>
    decreases filling.entries.len() - filling.written,
{
    if filling.written >= filling.entries.len() {
        filling.finished()
    } else {
        match filling.next(xid, handles(filling.entry().fileid)) {
            Outcome::Ask(more) => if more.written > filling.written && more.entries
                == filling.entries {
                filled_reply(more, xid, handles)
            } else {
                filling.finished()
            },
            Outcome::Reply(bytes) => bytes,
            _ => Seq::empty(),
        }
    }
}

/// The entries of READDIRPLUS on the wire.
pub open spec fn plus_entries(
    entries: Seq<DirEntry>,
    handles: spec_fn(fileid3) -> Seq<u8>,
) -> Seq<Seq<u8>> {
    Seq::new(entries.len(), |i: int| plus_entry(entries[i], handles(entries[i].fileid)))
}

/// The entries of READDIRPLUS as they are charged to the directory count.
pub open spec fn plain_entries(entries: Seq<DirEntry>) -> Seq<Seq<u8>> {
    Seq::new(entries.len(), |i: int| plain_entry(entries[i]))
}

/// The first `n` entries stay within the client's two counts and a record.
pub open spec fn plus_listable(
    plus: Seq<Seq<u8>>,
    plain: Seq<Seq<u8>>,
    n: nat,
    head: nat,
    dircount: nat,
    maxcount: nat,
) -> bool {
    listable(plus, n, head, maxcount) && within(plain, n, 0, dircount)
}

/// How many entries are listed, if the first `n` are.
pub open spec fn plus_listed(
    plus: Seq<Seq<u8>>,
    plain: Seq<Seq<u8>>,
    head: nat,
    dircount: nat,
    maxcount: nat,
    n: nat,
) -> nat
    decreases plus.len() - n,
{
    if n < plus.len() && plus_listable(plus, plain, n + 1, head, dircount, maxcount) {
        plus_listed(plus, plain, head, dircount, maxcount, n + 1)
    } else {
        n
    }
}

/// The reply of READDIRPLUS to the entries that the file system listed.
pub open spec fn readdirplus_reply(
    xid: u32,
    attr: Result<fattr3, nfsstat3>,
    dircount: u32,
    maxcount: u32,
    entries: Seq<DirEntry>,
    end: bool,
    handles: spec_fn(fileid3) -> Seq<u8>,
) -> Seq<u8> {
    let plus = plus_entries(entries, handles);
    let n = plus_listed(
        plus,
        plain_entries(entries),
        result_head(attr).len(),
        dircount as nat,
        maxcount as nat,
        0,
    );
    if n == 0 {
        listing_error(xid, nfsstat3::NFS3ERR_TOOSMALL, attr)
    } else {
        listing_head(xid, attr) + joined(plus, n) + listing_tail(n == entries.len() && end)
    }
}

/// The state of filling in which `n` entries have been written.
pub open spec fn filling_at(
    start: FillingView,
    n: nat,
    handles: spec_fn(fileid3) -> Seq<u8>,
) -> FillingView {
    FillingView {
        reply: start.reply + joined(plus_entries(start.entries, handles), n),
        charged: joined(plain_entries(start.entries), n).len(),
        written: n,
        ..start
    }
}

proof fn lemma_filling(
    xid: u32,
    start: FillingView,
    n: nat,
    handles: spec_fn(fileid3) -> Seq<u8>,
)
    requires
        n < start.entries.len(),
        start == filling_from(
            xid,
            start.dircount,
            start.maxcount,
            start.attr,
            start.entries,
            start.end,
        ),
    ensures
        ({
            let plus = plus_entries(start.entries, handles);
            let m = plus_listed(
                plus,
                plain_entries(start.entries),
                result_head(start.attr).len(),
                start.dircount as nat,
                start.maxcount as nat,
                n,
            );
            filled_reply(filling_at(start, n, handles), xid, handles) == if m == 0 {
                listing_error(xid, nfsstat3::NFS3ERR_TOOSMALL, start.attr)
            } else {
                start.reply + joined(plus, m) + listing_tail(m == start.entries.len() && start.end)
            }
        }),
    decreases start.entries.len() - n,
{
    let plus = plus_entries(start.entries, handles);
    let plain = plain_entries(start.entries);
    let here = filling_at(start, n, handles);
    let handle = handles(here.entry().fileid);
    lemma_head_lengths(xid, start.attr);
    assert(plus[n as int] == plus_entry(here.entry(), handle));
    assert(plain[n as int] == plain_entry(here.entry()));
    assert(joined(plus, n + 1) == joined(plus, n) + plus[n as int]);
    assert(joined(plain, n + 1) == joined(plain, n) + plain[n as int]);
    let head = result_head(start.attr).len();
    assert(here.fits(handle) <==> plus_listable(
        plus,
        plain,
        n + 1,
        head,
        start.dircount as nat,
        start.maxcount as nat,
    ));
    if here.fits(handle) {
        let more = here.with_entry(handle);
        assert(more.reply =~= filling_at(start, n + 1, handles).reply);
        assert(more == filling_at(start, n + 1, handles));
        if n + 1 < start.entries.len() {
            lemma_filling(xid, start, n + 1, handles);
        } else {
            assert(plus_listed(
                plus,
                plain,
                head,
                start.dircount as nat,
                start.maxcount as nat,
                n + 1,
            ) == n + 1);
        }
    }
}

/// Filling a listing entry by entry writes the longest run of entries that stays
/// within the client's two counts and a record, and says that it reaches the end
/// of the directory exactly if it does.
pub proof fn lemma_filling_lists_the_longest_run(
    xid: u32,
    attr: Result<fattr3, nfsstat3>,
    dircount: u32,
    maxcount: u32,
    entries: Seq<DirEntry>,
    end: bool,
    handles: spec_fn(fileid3) -> Seq<u8>,
)
    requires
        entries.len() > 0,
    ensures
        filled_reply(filling_from(xid, dircount, maxcount, attr, entries, end), xid, handles)
            == readdirplus_reply(xid, attr, dircount, maxcount, entries, end, handles),
{
    let start = filling_from(xid, dircount, maxcount, attr, entries, end);
    assert(start.reply + joined(plus_entries(entries, handles), 0) =~= start.reply);
    assert(filling_at(start, 0, handles) == start);
    lemma_filling(xid, start, 0, handles);
}

/// What is listed stays within the counts, and one entry more would not.
pub proof fn lemma_plus_listed_is_longest(
    plus: Seq<Seq<u8>>,
    plain: Seq<Seq<u8>>,
    head: nat,
    dircount: nat,
    maxcount: nat,
    n: nat,
)
    requires
        n <= plus.len(),
    ensures
        ({
            let m = plus_listed(plus, plain, head, dircount, maxcount, n);
            &&& n <= m <= plus.len()
            &&& m > n ==> plus_listable(plus, plain, m, head, dircount, maxcount)
            &&& m < plus.len() ==> !plus_listable(plus, plain, m + 1, head, dircount, maxcount)
        }),
    decreases plus.len() - n,
{
    if n < plus.len() && plus_listable(plus, plain, n + 1, head, dircount, maxcount) {
        lemma_plus_listed_is_longest(plus, plain, head, dircount, maxcount, n + 1);
    }
}

/// Of a count that is not refused, no reply of READDIRPLUS uses more than the
/// client allows for the result, nor more than a record holds.
pub proof fn lemma_readdirplus_reply_fits(
    xid: u32,
    attr: Result<fattr3, nfsstat3>,
    dircount: u32,
    maxcount: u32,
    entries: Seq<DirEntry>,
    end: bool,
    handles: spec_fn(fileid3) -> Seq<u8>,
)
    requires
        maxcount >= readdirplus_minimum(attr),
    ensures
        ({
            let reply = readdirplus_reply(xid, attr, dircount, maxcount, entries, end, handles);
            reply.len() <= RESULT_START + maxcount && reply.len() <= MAX_RPC_RECORD_BYTES
        }),
{
    broadcast use crate::xdr::group_xdr_lengths;

    lemma_head_lengths(xid, attr);
    lemma_plus_listed_is_longest(
        plus_entries(entries, handles),
        plain_entries(entries),
        result_head(attr).len(),
        dircount as nat,
        maxcount as nat,
        0,
    );
}

/// The smallest count of the result for which READDIRPLUS lists. With attributes
/// it is that of READDIR, without them where one entry of the smallest size fits.
pub open spec fn readdirplus_minimum(attr: Result<fattr3, nfsstat3>) -> nat {
    if attr is Ok {
        160
    } else {
        140
    }
}

/// Counts are refused without asking for entries if and only if that of the
/// result is below the smallest one or that of plain entries has room for none.
/// Where a count with attributes has room for no entry of the smallest size, the
/// required entries are asked for.
pub proof fn lemma_smallest_plus_listing(
    attr: Result<fattr3, nfsstat3>,
    dircount: u32,
    maxcount: u32,
)
    ensures
        ({
            let head = result_head(attr).len();
            let asked = readdirplus_entries(attr, dircount, maxcount);
            let plain = capacity(dircount as nat, 0, MIN_READDIR_ENTRY_BYTES as nat);
            &&& asked == 0 <==> maxcount < readdirplus_minimum(attr) || plain == 0
            &&& attr is Ok && maxcount >= readdirplus_minimum(attr) && capacity(
                maxcount as nat,
                head,
                MIN_READDIRPLUS_ENTRY_BYTES as nat,
            ) == 0 && plain >= REQUIRED_ENTRIES ==> asked == REQUIRED_ENTRIES
        }),
        readdirplus_entries(attr, dircount, maxcount) <= MAX_RPC_RECORD_BYTES
            / MIN_READDIRPLUS_ENTRY_BYTES,
{
    lemma_head_lengths(0, attr);
}

} // verus!
