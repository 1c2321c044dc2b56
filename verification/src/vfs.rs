//! The file system behind the server: what is asked of it and what it answers.
use crate::nfs::{
    cookie3, cookieverf3, fattr3, fileid3, filename3, fsinfo3, fsstat3, ftype3, nfs_fh3, nfspath3,
    nfsstat3, nfsstring, nfstime3, post_op_attr, specdata3, stable_how, writeverf3, FSF_CANSETTIME,
    FSF_HOMOGENEOUS, FSF_SYMLINK,
};
use crate::nfs_args::sattr3;
use crate::rpc::auth_unix;
use crate::transaction_table::TransactionKey;
use vstd::prelude::*;

verus! {

// ------------------------------------------------------------------ callers

/// Authentication context passed to filesystem operations
#[derive(Clone, Debug, PartialEq, Eq)]
pub struct AuthContext {
    /// User ID of the caller
    pub uid: u32,
    /// Primary group ID of the caller
    pub gid: u32,
    /// Additional group IDs the user belongs to
    pub gids: Vec<u32>,
}

impl View for AuthContext {
    type V = (u32, u32, Seq<u32>);

    open spec fn view(&self) -> (u32, u32, Seq<u32>) {
        (self.uid, self.gid, self.gids@)
    }
}

impl AuthContext {
    /// Create a new AuthContext from RPC auth_unix
    pub fn from_rpc_auth(auth: &auth_unix) -> (r: AuthContext)
        ensures
            r@ == (auth.uid, auth.gid, auth.gids@),
            r@ == caller_of(auth@),
    {
        let gids = auth.gids.clone();
        assert(gids@ =~= auth.gids@);
        AuthContext { uid: auth.uid, gid: auth.gid, gids }
    }

    /// Check if the user belongs to a specific group
    pub fn is_member_of_group(&self, gid: u32) -> (r: bool)
        ensures
            r <==> self.gid == gid || self.gids@.contains(gid),
            r == belongs(self@, gid),
    {
        if self.gid == gid {
            return true;
        }
        let mut i: usize = 0;
        while i < self.gids.len()
            invariant
                i <= self.gids@.len(),
                forall|j: int| 0 <= j < i ==> self.gids@[j] != gid,
            decreases self.gids@.len() - i,
        {
            if self.gids[i] == gid {
                assert(self.gids@[i as int] == gid);
                return true;
            }
            i = i + 1;
        }
        false
    }
}

/// Transport-level metadata describing the RPC request being served
#[derive(Clone, Debug, PartialEq, Eq)]
pub struct RpcRequestContext {
    /// RPC transaction id of the request
    pub xid: u32,
    /// Address of the client that sent the request
    pub client_addr: String,
    /// Server-minted identifier that is unique per accepted transport
    /// connection. A client reconnecting from the same address observes
    /// a fresh incarnation.
    pub connection_incarnation: u64,
}

impl RpcRequestContext {
    /// The identity under which the request is tracked.
    pub open spec fn identity(self) -> TransactionKey {
        (self.connection_incarnation, self.xid, self.client_addr@)
    }

    /// A second copy of the metadata.
    pub(crate) fn duplicate(&self) -> (r: RpcRequestContext)
        ensures
            r == *self,
    {
        RpcRequestContext {
            xid: self.xid,
            client_addr: self.client_addr.clone(),
            connection_incarnation: self.connection_incarnation,
        }
    }
}

/// The request being served and the caller it is served for.
#[derive(Clone, Debug, PartialEq, Eq)]
pub struct CallContext {
    pub rpc: RpcRequestContext,
    pub auth: AuthContext,
}

/// Request metadata passed along with a write
#[derive(Clone, Debug, PartialEq, Eq)]
pub struct WriteRequestContext {
    /// Transport-level request metadata
    pub rpc: RpcRequestContext,
    /// Stability level the client requested for this write
    pub requested_stability: stable_how,
}

/// Result of a contextual write, echoed back on the wire
#[derive(Clone, Copy, Debug, PartialEq, Eq)]
pub struct WriteResult {
    /// Post-write attributes of the file
    pub attributes: fattr3,
    /// Stability level the server actually honored
    pub committed: stable_how,
    /// Write verifier the client uses to detect server restarts
    pub verifier: writeverf3,
}

/// Request metadata passed along with a commit
#[derive(Clone, Debug, PartialEq, Eq)]
pub struct CommitRequestContext {
    /// Transport-level request metadata
    pub rpc: RpcRequestContext,
}

/// Result of a contextual commit, echoed back on the wire
#[derive(Clone, Copy, Debug, PartialEq, Eq)]
pub struct CommitResult {
    /// Write verifier the client uses to detect server restarts
    pub verifier: writeverf3,
}

/// What capabilities are supported
#[derive(Clone, Copy, Debug, PartialEq, Eq, Structural)]
pub enum VFSCapabilities {
    ReadOnly,
    ReadWrite,
}

// -------------------------------------------------------------- directories

/// A directory entry without its attributes.
#[derive(Debug, PartialEq, Eq)]
pub struct DirEntrySimple {
    pub fileid: fileid3,
    pub name: filename3,
    pub cookie: cookie3,
}

impl View for DirEntrySimple {
    type V = (fileid3, Seq<u8>, cookie3);

    open spec fn view(&self) -> (fileid3, Seq<u8>, cookie3) {
        (self.fileid, self.name@, self.cookie)
    }
}

impl Default for DirEntrySimple {
    fn default() -> (r: DirEntrySimple)
        ensures
            r@ == (0u64, Seq::<u8>::empty(), 0u64),
    {
        DirEntrySimple { fileid: 0, name: nfsstring::default(), cookie: 0 }
    }
}

/// Part of a directory, without attributes.
#[derive(Debug, PartialEq, Eq)]
pub struct ReadDirSimpleResult {
    pub entries: Vec<DirEntrySimple>,
    pub end: bool,
}

impl Default for ReadDirSimpleResult {
    fn default() -> (r: ReadDirSimpleResult)
        ensures
            r.entries@ == Seq::<DirEntrySimple>::empty(),
            !r.end,
    {
        ReadDirSimpleResult { entries: Vec::new(), end: false }
    }
}

/// A directory entry.
#[derive(Debug, PartialEq, Eq)]
pub struct DirEntry {
    pub fileid: fileid3,
    pub name: filename3,
    pub attr: fattr3,
    pub cookie: cookie3,
}

impl Default for DirEntry {
    fn default() -> (r: DirEntry)
        ensures
            r.simple() == (0u64, Seq::<u8>::empty(), 0u64),
            r.attr == fattr3::zero(),
    {
        DirEntry { fileid: 0, name: nfsstring::default(), attr: fattr3::default(), cookie: 0 }
    }
}

impl DirEntry {
    /// The entry without its attributes.
    pub open spec fn simple(self) -> (fileid3, Seq<u8>, cookie3) {
        (self.fileid, self.name@, self.cookie)
    }
}

/// Part of a directory, and whether it reaches the directory's end.
#[derive(Debug, PartialEq, Eq)]
pub struct ReadDirResult {
    pub entries: Vec<DirEntry>,
    pub end: bool,
}

impl Default for ReadDirResult {
    fn default() -> (r: ReadDirResult)
        ensures
            r.entries@ == Seq::<DirEntry>::empty(),
            !r.end,
    {
        ReadDirResult { entries: Vec::new(), end: false }
    }
}

impl ReadDirSimpleResult {
    /// The same part of the directory, without attributes.
    pub fn from_readdir_result(result: &ReadDirResult) -> (r: ReadDirSimpleResult)
        ensures
            r.end == result.end,
            r.entries@.len() == result.entries@.len(),
            forall|i: int|
                #![trigger r.entries@[i]]
                0 <= i < r.entries@.len() ==> r.entries@[i]@ == result.entries@[i].simple(),
    {
        let mut entries: Vec<DirEntrySimple> = Vec::new();
        let mut i: usize = 0;
        while i < result.entries.len()
            invariant
                i <= result.entries@.len(),
                entries@.len() == i,
                forall|j: int|
                    #![trigger entries@[j]]
                    0 <= j < i ==> entries@[j]@ == result.entries@[j].simple(),
            decreases result.entries@.len() - i,
        {
            let e = &result.entries[i];
            entries.push(
                DirEntrySimple { fileid: e.fileid, name: e.name.clone(), cookie: e.cookie },
            );
            i = i + 1;
        }
        ReadDirSimpleResult { entries, end: result.end }
    }
}

// ------------------------------------------------------ requests and answers

/// One operation that the server asks of the file system.
pub enum FsRequest<'a> {
    /// What the file system supports.
    Capabilities,
    /// The file that a handle stands for.
    FhToId { handle: &'a nfs_fh3 },
    /// The handle of a file.
    IdToFh { id: fileid3 },
    Getattr { auth: &'a AuthContext, id: fileid3 },
    Setattr { auth: &'a AuthContext, id: fileid3, attr: sattr3 },
    Lookup { auth: &'a AuthContext, dirid: fileid3, name: &'a filename3 },
    Read { auth: &'a AuthContext, id: fileid3, offset: u64, count: u32 },
    Write {
        write_context: WriteRequestContext,
        auth: &'a AuthContext,
        id: fileid3,
        offset: u64,
        data: &'a Vec<u8>,
    },
    Create { auth: &'a AuthContext, dirid: fileid3, name: &'a filename3, attr: sattr3 },
    CreateExclusive { auth: &'a AuthContext, dirid: fileid3, name: &'a filename3 },
    Mkdir { auth: &'a AuthContext, dirid: fileid3, name: &'a filename3, attr: sattr3 },
    Remove { auth: &'a AuthContext, dirid: fileid3, name: &'a filename3 },
    Rename {
        auth: &'a AuthContext,
        from_dirid: fileid3,
        from_name: &'a filename3,
        to_dirid: fileid3,
        to_name: &'a filename3,
    },
    Readdir { auth: &'a AuthContext, dirid: fileid3, start_after: fileid3, max_entries: usize },
    Symlink {
        auth: &'a AuthContext,
        dirid: fileid3,
        name: &'a filename3,
        target: &'a nfspath3,
        attr: sattr3,
    },
    Readlink { auth: &'a AuthContext, id: fileid3 },
    Mknod {
        auth: &'a AuthContext,
        dirid: fileid3,
        name: &'a filename3,
        ftype: ftype3,
        attr: sattr3,
        spec: Option<specdata3>,
    },
    Link { auth: &'a AuthContext, id: fileid3, dirid: fileid3, name: &'a filename3 },
    Commit {
        commit_context: CommitRequestContext,
        auth: &'a AuthContext,
        id: fileid3,
        offset: u64,
        count: u32,
    },
    Fsinfo { auth: &'a AuthContext, id: fileid3 },
    Fsstat { auth: &'a AuthContext, id: fileid3 },
}

impl<'a> FsRequest<'a> {
    /// Whom the operation is asked for, if that matters to it.
    pub open spec fn caller(self) -> Option<AuthContext> {
        match self {
            FsRequest::Capabilities => None,
            FsRequest::FhToId { .. } => None,
            FsRequest::IdToFh { .. } => None,
            FsRequest::Getattr { auth, .. } => Some(*auth),
            FsRequest::Setattr { auth, .. } => Some(*auth),
            FsRequest::Lookup { auth, .. } => Some(*auth),
            FsRequest::Read { auth, .. } => Some(*auth),
            FsRequest::Write { auth, .. } => Some(*auth),
            FsRequest::Create { auth, .. } => Some(*auth),
            FsRequest::CreateExclusive { auth, .. } => Some(*auth),
            FsRequest::Mkdir { auth, .. } => Some(*auth),
            FsRequest::Remove { auth, .. } => Some(*auth),
            FsRequest::Rename { auth, .. } => Some(*auth),
            FsRequest::Readdir { auth, .. } => Some(*auth),
            FsRequest::Symlink { auth, .. } => Some(*auth),
            FsRequest::Readlink { auth, .. } => Some(*auth),
            FsRequest::Mknod { auth, .. } => Some(*auth),
            FsRequest::Link { auth, .. } => Some(*auth),
            FsRequest::Commit { auth, .. } => Some(*auth),
            FsRequest::Fsinfo { auth, .. } => Some(*auth),
            FsRequest::Fsstat { auth, .. } => Some(*auth),
        }
    }

    /// The operation changes the file system.
    pub open spec fn mutates(self) -> bool {
        match self {
            FsRequest::Setattr { .. } => true,
            FsRequest::Write { .. } => true,
            FsRequest::Create { .. } => true,
            FsRequest::CreateExclusive { .. } => true,
            FsRequest::Mkdir { .. } => true,
            FsRequest::Remove { .. } => true,
            FsRequest::Rename { .. } => true,
            FsRequest::Symlink { .. } => true,
            FsRequest::Mknod { .. } => true,
            FsRequest::Link { .. } => true,
            FsRequest::Commit { .. } => true,
            _ => false,
        }
    }
}

/// What the file system answers.
#[derive(Debug, PartialEq, Eq)]
pub enum FsAnswer {
    Capabilities(VFSCapabilities),
    /// A file: the answer to `FhToId`, `Lookup` and `CreateExclusive`.
    Id(Result<fileid3, nfsstat3>),
    Handle(nfs_fh3),
    /// Attributes: the answer to `Getattr` and `Setattr`.
    Attr(Result<fattr3, nfsstat3>),
    /// What was read, and whether it reaches the end of the file.
    Bytes(Result<(Vec<u8>, bool), nfsstat3>),
    Written(Result<WriteResult, nfsstat3>),
    /// A new object: the answer to `Create`, `Mkdir`, `Symlink` and `Mknod`.
    Created(Result<(fileid3, fattr3), nfsstat3>),
    /// The answer to `Remove`, `Rename` and `Link`.
    Done(Result<(), nfsstat3>),
    Listing(Result<ReadDirResult, nfsstat3>),
    Path(Result<nfspath3, nfsstat3>),
    Committed(Result<CommitResult, nfsstat3>),
    Fsinfo(Result<fsinfo3, nfsstat3>),
    Fsstat(Result<fsstat3, nfsstat3>),
}

impl FsAnswer {
    /// The answer is of the kind that the request asks for.
    pub open spec fn fits<'a>(self, request: FsRequest<'a>) -> bool {
        match request {
            FsRequest::Capabilities => self is Capabilities,
            FsRequest::FhToId { .. } => self is Id,
            FsRequest::IdToFh { .. } => self is Handle,
            FsRequest::Getattr { .. } => self is Attr,
            FsRequest::Setattr { .. } => self is Attr,
            FsRequest::Lookup { .. } => self is Id,
            FsRequest::Read { .. } => self is Bytes,
            FsRequest::Write { .. } => self is Written,
            FsRequest::Create { .. } => self is Created,
            FsRequest::CreateExclusive { .. } => self is Id,
            FsRequest::Mkdir { .. } => self is Created,
            FsRequest::Remove { .. } => self is Done,
            FsRequest::Rename { .. } => self is Done,
            FsRequest::Readdir { .. } => self is Listing,
            FsRequest::Symlink { .. } => self is Created,
            FsRequest::Readlink { .. } => self is Path,
            FsRequest::Mknod { .. } => self is Created,
            FsRequest::Link { .. } => self is Done,
            FsRequest::Commit { .. } => self is Committed,
            FsRequest::Fsinfo { .. } => self is Fsinfo,
            FsRequest::Fsstat { .. } => self is Fsstat,
        }
    }

    /// Each length in the answer can be encoded.
    pub open spec fn encodable(self) -> bool {
        match self {
            FsAnswer::Handle(fh) => fh@.len() <= u32::MAX,
            FsAnswer::Bytes(Ok((bytes, _))) => bytes@.len() <= u32::MAX,
            FsAnswer::Path(Ok(path)) => path@.len() <= u32::MAX,
            FsAnswer::Listing(Ok(listing)) => names_encodable(listing.entries@),
            _ => true,
        }
    }

    pub fn is_encodable(&self) -> (r: bool)
        ensures
            r == self.encodable(),
    {
        match self {
            FsAnswer::Handle(fh) => encodable_length(fh.data.len()),
            FsAnswer::Bytes(Ok(read)) => encodable_length(read.0.len()),
            FsAnswer::Path(Ok(path)) => encodable_length(path.0.len()),
            FsAnswer::Listing(Ok(listing)) => {
                let mut i: usize = 0;
                while i < listing.entries.len()
                    invariant
                        i <= listing.entries@.len(),
                        forall|j: int|
                            #![trigger listing.entries@[j]]
                            0 <= j < i ==> listing.entries@[j].name@.len() <= u32::MAX,
                        *self == FsAnswer::Listing(Ok(*listing)),
                    decreases listing.entries@.len() - i,
                {
                    if !encodable_length(listing.entries[i].name.0.len()) {
                        assert(listing.entries@[i as int].name@.len() > u32::MAX);
                        return false;
                    }
                    i = i + 1;
                }
                true
            },
            _ => true,
        }
    }
}

/// The length of each name can be encoded.
pub open spec fn names_encodable(entries: Seq<DirEntry>) -> bool {
    forall|i: int|
        #![trigger entries[i]]
        0 <= i < entries.len() ==> entries[i].name@.len() <= u32::MAX
}

fn encodable_length(len: usize) -> (r: bool)
    ensures
        r <==> len <= u32::MAX,
{
    len as u64 <= 0xffff_ffff
}

// ------------------------------------------------------------------- defaults

/// The verifier of a file system that does not tell its restarts apart.
pub fn default_write_verf() -> (verf: writeverf3)
    ensures
        verf@ == crate::xdr::zeros(8),
{
    let verf = [0, 0, 0, 0, 0, 0, 0, 0];
    assert(verf@ =~= crate::xdr::zeros(8));
    verf
}

/// The result of a write that ignores the stability asked for: the data is on
/// stable storage whatever was requested.
pub fn file_sync_result(
    written: Result<fattr3, nfsstat3>,
    verifier: writeverf3,
) -> (r: Result<WriteResult, nfsstat3>)
    ensures
        match written {
            Ok(attributes) => r == Ok::<WriteResult, nfsstat3>(
                WriteResult { attributes, committed: stable_how::FILE_SYNC, verifier },
            ),
            Err(e) => r == Err::<WriteResult, nfsstat3>(e),
        },
        r == synced(written, verifier),
{
    match written {
        Ok(attributes) => Ok(
            WriteResult { attributes, committed: stable_how::FILE_SYNC, verifier },
        ),
        Err(e) => Err(e),
    }
}

/// The result of a commit that only hands out a verifier.
pub fn commit_result(committed: Result<writeverf3, nfsstat3>) -> (r: Result<
    CommitResult,
    nfsstat3,
>)
    ensures
        match committed {
            Ok(verifier) => r == Ok::<CommitResult, nfsstat3>(CommitResult { verifier }),
            Err(e) => r == Err::<CommitResult, nfsstat3>(e),
        },
        r == committed_as(committed),
{
    match committed {
        Ok(verifier) => Ok(CommitResult { verifier }),
        Err(e) => Err(e),
    }
}

/// Static information for a file system that states none of its own, given the
/// answer to a `getattr` of its root.
pub fn default_fsinfo(root: &Result<fattr3, nfsstat3>) -> (r: fsinfo3)
    ensures
        r == (fsinfo3 {
            obj_attributes: post_op_attr::of_getattr(*root),
            rtmax: 1048576,
            rtpref: 126976,
            rtmult: 1048576,
            wtmax: 1048576,
            wtpref: 1048576,
            wtmult: 1048576,
            dtpref: 1048576,
            maxfilesize: 137438953472,
            time_delta: nfstime3 { seconds: 0, nseconds: 1000000 },
            properties: 0x1a,
        }),
        r == stated_information(*root),
{
    assert(FSF_SYMLINK | FSF_HOMOGENEOUS | FSF_CANSETTIME == 0x1a) by (bit_vector);
    fsinfo3 {
        obj_attributes: post_op_attr::from_getattr(root),
        rtmax: 1024 * 1024,
        rtpref: 1024 * 124,
        rtmult: 1024 * 1024,
        wtmax: 1024 * 1024,
        wtpref: 1024 * 1024,
        wtmult: 1024 * 1024,
        dtpref: 1024 * 1024,
        maxfilesize: 128 * 1024 * 1024 * 1024,
        time_delta: nfstime3 { seconds: 0, nseconds: 1000000 },
        properties: FSF_SYMLINK | FSF_HOMOGENEOUS | FSF_CANSETTIME,
    }
}

/// Statistics for a file system that keeps none, given the answer to a
/// `getattr` of the file they are asked of.
pub fn default_fsstat(file: &Result<fattr3, nfsstat3>) -> (r: fsstat3)
    ensures
        r == (fsstat3 {
            obj_attributes: post_op_attr::of_getattr(*file),
            tbytes: 1099511627776,
            fbytes: 1099511627776,
            abytes: 1099511627776,
            tfiles: 1073741824,
            ffiles: 1073741824,
            afiles: 1073741824,
            invarsec: 0,
        }),
        r == stated_statistics(*file),
{
    fsstat3 {
        obj_attributes: post_op_attr::from_getattr(file),
        tbytes: 1024 * 1024 * 1024 * 1024,
        fbytes: 1024 * 1024 * 1024 * 1024,
        abytes: 1024 * 1024 * 1024 * 1024,
        tfiles: 1024 * 1024 * 1024,
        ffiles: 1024 * 1024 * 1024,
        afiles: 1024 * 1024 * 1024,
        invarsec: 0,
    }
}

// -------------------------------------------------------------------- handles

/// The eight bytes of `n`, least significant first.
pub open spec fn le_bytes(n: u64) -> Seq<u8> {
    vstd::bytes::spec_u64_to_le_bytes(n)
}

/// The number whose bytes, least significant first, are the eight of `s`.
pub open spec fn le_number(s: Seq<u8>) -> u64 {
    vstd::bytes::spec_u64_from_le_bytes(s)
}

/// A handle: the generation of the server, then the file.
pub open spec fn handle_of(generation: u64, id: fileid3) -> Seq<u8> {
    le_bytes(generation) + le_bytes(id)
}

/// The file that a handle stands for in a generation of the server. A handle of
/// an earlier generation is stale; what no generation up to this one can have
/// made is no handle.
pub open spec fn file_of(generation: u64, handle: Seq<u8>) -> Result<fileid3, nfsstat3> {
    if handle.len() != 16 {
        Err(nfsstat3::NFS3ERR_BADHANDLE)
    } else if le_number(handle.take(8)) < generation {
        Err(nfsstat3::NFS3ERR_STALE)
    } else if le_number(handle.take(8)) > generation {
        Err(nfsstat3::NFS3ERR_BADHANDLE)
    } else {
        Ok(le_number(handle.skip(8)))
    }
}

/// Converts the fileid to an opaque NFS file handle.
pub fn id_to_fh(generation: u64, id: fileid3) -> (fh: nfs_fh3)
    ensures
        fh@ == handle_of(generation, id),
{
    let mut data = vstd::bytes::u64_to_le_bytes(generation);
    let mut tail = vstd::bytes::u64_to_le_bytes(id);
    data.append(&mut tail);
    assert(data@ =~= handle_of(generation, id));
    nfs_fh3 { data }
}

/// Converts an opaque NFS file handle to a fileid.
pub fn fh_to_id(generation: u64, fh: &nfs_fh3) -> (r: Result<fileid3, nfsstat3>)
    ensures
        r == file_of(generation, fh@),
{
    if fh.data.len() != 16 {
        return Err(nfsstat3::NFS3ERR_BADHANDLE);
    }
    let front = vstd::slice::slice_subrange(fh.data.as_slice(), 0, 8);
    assert(front@ =~= fh@.take(8));
    let made: u64 = vstd::bytes::u64_from_le_bytes(front);
    let back = vstd::slice::slice_subrange(fh.data.as_slice(), 8, 16);
    assert(back@ =~= fh@.skip(8));
    let id: u64 = vstd::bytes::u64_from_le_bytes(back);
    if made < generation {
        Err(nfsstat3::NFS3ERR_STALE)
    } else if made > generation {
        Err(nfsstat3::NFS3ERR_BADHANDLE)
    } else {
        Ok(id)
    }
}

/// The identity of the server in a generation.
pub fn serverid(generation: u64) -> (id: cookieverf3)
    ensures
        id@ == le_bytes(generation),
{
    let bytes = vstd::bytes::u64_to_le_bytes(generation);
    proof {
        vstd::bytes::lemma_auto_spec_u64_to_from_le_bytes();
    }
    let id = [
        bytes[0],
        bytes[1],
        bytes[2],
        bytes[3],
        bytes[4],
        bytes[5],
        bytes[6],
        bytes[7],
    ];
    assert(id@ =~= bytes@);
    id
}

/// A handle leads back to the file it was made for.
pub proof fn lemma_handle_round_trip(generation: u64, id: fileid3)
    ensures
        handle_of(generation, id).len() == 16,
        file_of(generation, handle_of(generation, id)) == Ok::<fileid3, nfsstat3>(id),
{
    vstd::bytes::lemma_auto_spec_u64_to_from_le_bytes();
    let h = handle_of(generation, id);
    assert(h.take(8) =~= le_bytes(generation));
    assert(h.skip(8) =~= le_bytes(id));
}

/// A handle expires when the server restarts: no other generation accepts it,
/// and a later one calls it stale.
pub proof fn lemma_handle_expires(made: u64, now: u64, id: fileid3)
    requires
        made != now,
    ensures
        made < now ==> file_of(now, handle_of(made, id)) == Err::<fileid3, nfsstat3>(
            nfsstat3::NFS3ERR_STALE,
        ),
        made > now ==> file_of(now, handle_of(made, id)) == Err::<fileid3, nfsstat3>(
            nfsstat3::NFS3ERR_BADHANDLE,
        ),
{
    vstd::bytes::lemma_auto_spec_u64_to_from_le_bytes();
    let h = handle_of(made, id);
    assert(h.take(8) =~= le_bytes(made));
}

// ---------------------------------------------------------------------- paths

/// The number of bytes before the first slash.
pub open spec fn head_len(path: Seq<u8>) -> nat
    decreases path.len(),
{
    if path.len() == 0 || path[0] == 0x2f {
        0
    } else {
        1 + head_len(path.skip(1))
    }
}

/// The names in a path: what stands between slashes and is not empty.
pub open spec fn components(path: Seq<u8>) -> Seq<Seq<u8>>
    decreases path.len(),
{
    if path.len() == 0 {
        Seq::empty()
    } else {
        let n = head_len(path);
        let behind = if n < path.len() {
            components(path.skip(n as int + 1))
        } else {
            Seq::empty()
        };
        if n == 0 {
            behind
        } else {
            seq![path.take(n as int)] + behind
        }
    }
}

proof fn lemma_head_len(path: Seq<u8>, n: nat)
    requires
        n <= path.len(),
        forall|i: int| 0 <= i < n ==> path[i] != 0x2f,
        n == path.len() || path[n as int] == 0x2f,
    ensures
        head_len(path) == n,
    decreases path.len(),
{
    if n > 0 {
        let tail = path.skip(1);
        assert forall|i: int| 0 <= i < n - 1 implies tail[i] != 0x2f by {
            assert(tail[i] == path[i + 1]);
        }
        lemma_head_len(tail, (n - 1) as nat);
    }
}

/// The views of names.
pub open spec fn names_view(names: Seq<filename3>) -> Seq<Seq<u8>> {
    Seq::new(names.len(), |i: int| names[i]@)
}

fn split_path(path: &[u8]) -> (names: Vec<filename3>)
    ensures
        names_view(names@) == components(path@),
{
    let mut names: Vec<filename3> = Vec::new();
    let mut pos: usize = 0;
    assert(path@.skip(0) =~= path@);
    assert(names_view(names@) + components(path@) =~= components(path@));
    while pos < path.len()
        invariant
            pos <= path@.len(),
            names_view(names@) + components(path@.skip(pos as int)) == components(path@),
        decreases path@.len() - pos,
    {
        let ghost rest = path@.skip(pos as int);
        let mut end: usize = pos;
        while end < path.len() && path[end] != 0x2f
            invariant
                pos <= end <= path@.len(),
                rest == path@.skip(pos as int),
                forall|i: int| 0 <= i < end - pos ==> rest[i] != 0x2f,
            decreases path@.len() - end,
        {
            end = end + 1;
        }
        let ghost before = names_view(names@);
        proof {
            lemma_head_len(rest, (end - pos) as nat);
        }
        if end > pos {
            let name = nfsstring(
                vstd::slice::slice_to_vec(vstd::slice::slice_subrange(path, pos, end)),
            );
            assert(name@ =~= rest.take(end - pos));
            names.push(name);
            assert(names_view(names@) =~= before.push(name@));
        }
        if end < path.len() {
            assert(path@.skip(end + 1) =~= rest.skip(end - pos + 1));
            pos = end + 1;
        } else {
            assert(path@.skip(end as int).len() == 0);
            pos = end;
        }
        assert(
            names_view(names@) + components(path@.skip(pos as int)) =~= before + components(rest)
        );
    }
    assert(names_view(names@) + Seq::<Seq<u8>>::empty() =~= names_view(names@));
    names
}

/// A path that is being resolved, one name at a time.
pub struct PathWalk {
    dir: fileid3,
    names: Vec<filename3>,
    next: usize,
}

impl View for PathWalk {
    type V = (fileid3, Seq<Seq<u8>>);

    /// The file reached so far, and the names still to be looked up.
    closed spec fn view(&self) -> (fileid3, Seq<Seq<u8>>) {
        (self.dir, names_view(self.names@).skip(self.next as int))
    }
}

impl PathWalk {
    #[verifier::type_invariant]
    spec fn within(self) -> bool {
        self.next <= self.names@.len()
    }

    /// Starts at the root.
    pub fn new(root: fileid3, path: &[u8]) -> (walk: PathWalk)
        ensures
            walk@ == (root, components(path@)),
            walk@ == walk_from(root, path@),
    {
        let names = split_path(path);
        let walk = PathWalk { dir: root, names, next: 0 };
        assert(names_view(names@).skip(0) =~= names_view(names@));
        walk
    }

    /// The file that the path leads to, once no name is left.
    pub fn arrived(&self) -> (r: Option<fileid3>)
        ensures
            r == (if self@.1.len() == 0 {
                Some(self@.0)
            } else {
                None
            }),
            r == walk_end(self@),
    {
        proof {
            use_type_invariant(self);
        }
        if self.next < self.names.len() {
            None
        } else {
            Some(self.dir)
        }
    }

    /// The name to look up next, and the directory to look it up in.
    pub fn request<'a>(&'a self, auth: &'a AuthContext) -> (r: FsRequest<'a>)
        requires
            self@.1.len() > 0,
        ensures
            r matches FsRequest::Lookup { auth: a, dirid, name } && a == auth && dirid == self@.0
                && name@ == self@.1[0] && (dirid, name@) == walk_step(self@),
    {
        proof {
            use_type_invariant(self);
        }
        FsRequest::Lookup { auth, dirid: self.dir, name: &self.names[self.next] }
    }

    /// Takes the answer to that lookup. A name that is not found ends the walk.
    pub fn resume(&mut self, found: Result<fileid3, nfsstat3>) -> (r: Result<(), nfsstat3>)
        requires
            old(self)@.1.len() > 0,
        ensures
            match found {
                Ok(id) => r is Ok && final(self)@ == (id, old(self)@.1.skip(1)) && final(self)@
                    == walked(old(self)@, id),
                Err(e) => r == Err::<(), nfsstat3>(e) && *final(self) == *old(self),
            },
    {
        proof {
            use_type_invariant(&*self);
        }
        match found {
            Ok(id) => {
                assert(self.next < self.names.len());
                let next: usize = self.next + 1;
                assert(names_view(self.names@).skip(next as int) =~= self@.1.skip(1));
                self.dir = id;
                self.next = next;
                Ok(())
            },
            Err(e) => Err(e),
        }
    }
}

/// Slashes in front of a path, and doubled ones, change nothing.
pub proof fn lemma_leading_slash(path: Seq<u8>)
    ensures
        components(seq![0x2fu8] + path) == components(path),
{
    let longer = seq![0x2fu8] + path;
    assert(longer.skip(1) =~= path);
    if path.len() == 0 {
        assert(components(longer.skip(1)) =~= Seq::<Seq<u8>>::empty());
    }
}

/// No name in a path is empty or holds a slash.
pub proof fn lemma_components_are_names(path: Seq<u8>)
    ensures
        forall|i: int|
            #![trigger components(path)[i]]
            0 <= i < components(path).len() ==> components(path)[i].len() > 0
                && !components(path)[i].contains(0x2fu8),
    decreases path.len(),
{
    if path.len() > 0 {
        let n = head_len(path);
        lemma_head(path);
        let behind = if n < path.len() {
            components(path.skip(n as int + 1))
        } else {
            Seq::empty()
        };
        if n < path.len() {
            lemma_components_are_names(path.skip(n as int + 1));
        }
        if n > 0 {
            assert(!path.take(n as int).contains(0x2fu8));
            assert forall|i: int| #![trigger components(path)[i]] 0 <= i < components(
                path,
            ).len() implies components(path)[i].len() > 0 && !components(path)[i].contains(
                0x2fu8,
            ) by {
                if i > 0 {
                    assert(components(path)[i] == behind[i - 1]);
                }
            }
        }
    }
}

proof fn lemma_head(path: Seq<u8>)
    ensures
        head_len(path) <= path.len(),
        forall|i: int| 0 <= i < head_len(path) ==> path[i] != 0x2f,
    decreases path.len(),
{
    if path.len() > 0 && path[0] != 0x2f {
        lemma_head(path.skip(1));
        assert forall|i: int| 0 <= i < head_len(path) implies path[i] != 0x2f by {
            if i > 0 {
                assert(path.skip(1)[i - 1] == path[i]);
            }
        }
    }
}

/// A path is made of the names of its parts: what stands in front of a slash, then
/// what stands behind it.
pub proof fn lemma_paths_join(a: Seq<u8>, b: Seq<u8>)
    ensures
        components(a + seq![0x2fu8] + b) == components(a) + components(b),
    decreases a.len(),
{
    let path = a + seq![0x2fu8] + b;
    if a.len() == 0 {
        assert(path =~= seq![0x2fu8] + b);
        lemma_leading_slash(b);
        assert(components(a) + components(b) =~= components(b));
    } else {
        let n = head_len(a);
        lemma_head(a);
        lemma_head_stops(a);
        assert forall|i: int| 0 <= i < n implies path[i] != 0x2f by {
            assert(path[i] == a[i]);
        }
        if n < a.len() {
            assert(path[n as int] == a[n as int]);
        }
        lemma_head_len(path, n);
        assert(path.take(n as int) =~= a.take(n as int));
        if n < a.len() {
            let rest = a.skip(n as int + 1);
            assert(path.skip(n as int + 1) =~= rest + seq![0x2fu8] + b);
            lemma_paths_join(rest, b);
            if n > 0 {
                assert(seq![a.take(n as int)] + (components(rest) + components(b)) =~= seq![
                    a.take(n as int),
                ] + components(rest) + components(b));
            }
        } else {
            assert(path.skip(n as int + 1) =~= b);
            assert(seq![a.take(n as int)] + Seq::<Seq<u8>>::empty() =~= seq![a.take(n as int)]);
        }
    }
}

proof fn lemma_head_stops(path: Seq<u8>)
    ensures
        head_len(path) < path.len() ==> path[head_len(path) as int] == 0x2f,
    decreases path.len(),
{
    if path.len() > 0 && path[0] != 0x2f {
        lemma_head_stops(path.skip(1));
    }
}

/// A name without a slash is a path of that name.
pub proof fn lemma_name_is_a_path(name: Seq<u8>)
    requires
        name.len() > 0,
        !name.contains(0x2fu8),
    ensures
        components(name) == seq![name],
{
    assert forall|i: int| 0 <= i < name.len() implies name[i] != 0x2f by {
        assert(name.contains(name[i]));
    }
    lemma_head_len(name, name.len());
    assert(name.take(name.len() as int) =~= name);
    assert(seq![name] + Seq::<Seq<u8>>::empty() =~= seq![name]);
}

// ----------------------------------------------------------------------- walks

/// Where a walk along a path starts.
pub open spec fn walk_from(root: fileid3, path: Seq<u8>) -> (fileid3, Seq<Seq<u8>>) {
    (root, components(path))
}

/// The directory and the name that a walk looks up next.
pub open spec fn walk_step(walk: (fileid3, Seq<Seq<u8>>)) -> (fileid3, Seq<u8>) {
    (walk.0, walk.1[0])
}

/// A walk after its next name was found.
pub open spec fn walked(walk: (fileid3, Seq<Seq<u8>>), id: fileid3) -> (
    fileid3,
    Seq<Seq<u8>>,
) {
    (id, walk.1.skip(1))
}

/// Where a walk has led, once no name is left.
pub open spec fn walk_end(walk: (fileid3, Seq<Seq<u8>>)) -> Option<fileid3> {
    if walk.1.len() == 0 {
        Some(walk.0)
    } else {
        None
    }
}

/// A walk after the first names were found.
pub open spec fn walked_on(walk: (fileid3, Seq<Seq<u8>>), ids: Seq<fileid3>) -> (
    fileid3,
    Seq<Seq<u8>>,
)
    decreases ids.len(),
{
    if ids.len() == 0 {
        walk
    } else {
        walked(walked_on(walk, ids.drop_last()), ids.last())
    }
}

/// A walk looks the names of a path up in their order, the first in the root and
/// each other one in what the name before it led to. It has led somewhere only
/// when every name was found, and then to what the last one led to, or to the root
/// where there was none.
pub proof fn lemma_walk_takes_every_name(root: fileid3, path: Seq<u8>, ids: Seq<fileid3>)
    requires
        ids.len() <= components(path).len(),
    ensures
        ({
            let walk = walked_on(walk_from(root, path), ids);
            let here = if ids.len() == 0 {
                root
            } else {
                ids.last()
            };
            &&& ids.len() < components(path).len() ==> walk_end(walk) is None && walk_step(walk)
                == (here, components(path)[ids.len() as int])
            &&& ids.len() == components(path).len() ==> walk_end(walk) == Some(here)
            &&& walk.1 == components(path).skip(ids.len() as int)
        }),
    decreases ids.len(),
{
    if ids.len() == 0 {
        assert(components(path).skip(0) =~= components(path));
    } else {
        lemma_walk_takes_every_name(root, path, ids.drop_last());
        assert(components(path).skip(ids.len() - 1).skip(1) =~= components(path).skip(
            ids.len() as int,
        ));
    }
}

// ------------------------------------------------------------------ more laws

/// Who a credential says the caller is.
pub open spec fn caller_of(auth: crate::rpc::auth_unixView) -> (u32, u32, Seq<u32>) {
    (auth.2, auth.3, auth.4)
}

/// The caller is in a group.
pub open spec fn belongs(caller: (u32, u32, Seq<u32>), gid: u32) -> bool {
    caller.1 == gid || caller.2.contains(gid)
}

/// A caller is in the group of its own and in the other groups of its credential,
/// each of them, and in no more. Its user is not a group.
pub proof fn lemma_groups_of_a_caller(
    stamp: u32,
    machine: Seq<u8>,
    uid: u32,
    gid: u32,
    gids: Seq<u32>,
    i: int,
    more: u32,
    other: u32,
)
    ensures
        ({
            let caller = caller_of((stamp, machine, uid, gid, gids));
            let joined = caller_of((stamp, machine, uid, gid, gids.push(more)));
            &&& belongs(caller, gid)
            &&& 0 <= i < gids.len() ==> belongs(caller, gids[i])
            &&& belongs(joined, other) <==> belongs(caller, other) || other == more
            &&& gids.len() == 0 ==> (belongs(caller, other) <==> other == gid)
        }),
{
    let longer = gids.push(more);
    if gids.contains(other) {
        let k = choose|k: int| 0 <= k < gids.len() && gids[k] == other;
        assert(longer[k] == other);
    }
    assert(longer[gids.len() as int] == more);
    if longer.contains(other) {
        let k = choose|k: int| 0 <= k < longer.len() && longer[k] == other;
        if k < gids.len() {
            assert(gids[k] == other);
        }
    }
}

/// The result of a write whose data is on stable storage.
pub open spec fn synced(written: Result<fattr3, nfsstat3>, verifier: writeverf3) -> Result<
    WriteResult,
    nfsstat3,
> {
    match written {
        Ok(attributes) => Ok(
            WriteResult { attributes, committed: stable_how::FILE_SYNC, verifier },
        ),
        Err(e) => Err(e),
    }
}

/// The result of a commit that only hands out a verifier.
pub open spec fn committed_as(committed: Result<writeverf3, nfsstat3>) -> Result<
    CommitResult,
    nfsstat3,
> {
    match committed {
        Ok(verifier) => Ok(CommitResult { verifier }),
        Err(e) => Err(e),
    }
}

/// A file system without stabilities of its own promises the highest one of every
/// write, with its attributes and its verifier. What fails there fails.
pub proof fn lemma_plain_results_are_kept(
    written: Result<fattr3, nfsstat3>,
    committed: Result<writeverf3, nfsstat3>,
    verifier: writeverf3,
    other: stable_how,
)
    ensures
        synced(written, verifier) is Ok <==> written is Ok,
        synced(written, verifier) matches Ok(result) ==> result.attributes == written->Ok_0
            && result.verifier@ == verifier@ && other.number() <= result.committed.number(),
        synced(written, verifier) matches Err(e) ==> written == Err::<fattr3, nfsstat3>(e),
        committed_as(committed) is Ok <==> committed is Ok,
        committed_as(committed) matches Ok(result) ==> result.verifier@ == committed->Ok_0@,
        committed_as(committed) matches Err(e) ==> committed == Err::<writeverf3, nfsstat3>(e),
{
}

/// Only a handle that was made for a file in this generation stands for the file.
pub proof fn lemma_only_made_handles_stand_for_files(generation: u64, handle: Seq<u8>)
    ensures
        file_of(generation, handle) matches Ok(id) ==> handle == handle_of(generation, id),
{
    vstd::bytes::lemma_auto_spec_u64_to_from_le_bytes();
    if file_of(generation, handle) is Ok {
        let front = handle.take(8);
        let back = handle.skip(8);
        assert(front.len() == 8 && back.len() == 8);
        assert(le_bytes(le_number(front)) =~= front);
        assert(le_bytes(le_number(back)) =~= back);
        assert(handle =~= front + back);
    }
}

/// What a simple listing keeps of an entry.
pub proof fn lemma_simple_entries(entry: DirEntry)
    ensures
        entry.simple().0 == entry.fileid,
        entry.simple().1 == entry.name@,
        entry.simple().2 == entry.cookie,
{
}

/// An answer can be encoded unless a length in it is more than a number on the wire
/// can say.
pub proof fn lemma_answers_can_be_encoded(
    answer: FsAnswer,
    handle: nfs_fh3,
    bytes: Vec<u8>,
    eof: bool,
    path: nfspath3,
    listing: ReadDirResult,
)
    ensures
        FsAnswer::Handle(handle).encodable() <==> handle@.len() < 0x1_0000_0000,
        FsAnswer::Bytes(Ok((bytes, eof))).encodable() <==> bytes@.len() < 0x1_0000_0000,
        FsAnswer::Path(Ok(path)).encodable() <==> path@.len() < 0x1_0000_0000,
        FsAnswer::Listing(Ok(listing)).encodable() <==> forall|i: int|
            0 <= i < listing.entries@.len() ==> (#[trigger] listing.entries@[i]).name@.len()
                < 0x1_0000_0000,
        !(answer is Handle) && !(answer is Bytes) && !(answer is Path) && !(answer is Listing)
            ==> answer.encodable(),
        answer is Bytes && answer->Bytes_0 is Err ==> answer.encodable(),
        answer is Path && answer->Path_0 is Err ==> answer.encodable(),
        answer is Listing && answer->Listing_0 is Err ==> answer.encodable(),
{
}

/// What a file system that states nothing of its own is said to be.
pub open spec fn stated_information(root: Result<fattr3, nfsstat3>) -> fsinfo3 {
    fsinfo3 {
        obj_attributes: post_op_attr::of_getattr(root),
        rtmax: 1048576,
        rtpref: 126976,
        rtmult: 1048576,
        wtmax: 1048576,
        wtpref: 1048576,
        wtmult: 1048576,
        dtpref: 1048576,
        maxfilesize: 137438953472,
        time_delta: nfstime3 { seconds: 0, nseconds: 1000000 },
        properties: 0x1a,
    }
}

/// What a file system that keeps no statistics is said to hold.
pub open spec fn stated_statistics(file: Result<fattr3, nfsstat3>) -> fsstat3 {
    fsstat3 {
        obj_attributes: post_op_attr::of_getattr(file),
        tbytes: 1099511627776,
        fbytes: 1099511627776,
        abytes: 1099511627776,
        tfiles: 1073741824,
        ffiles: 1073741824,
        afiles: 1073741824,
        invarsec: 0,
    }
}

/// What is stated of a file system by default holds the attributes that were found
/// out. A client that keeps to the stated sizes never reads or writes more at a
/// time than is served, and nothing is stated to be used up.
pub proof fn lemma_stated_sizes_are_served(a: fattr3, e: nfsstat3)
    ensures
        ({
            let info = stated_information(Ok(a));
            let stat = stated_statistics(Ok(a));
            let limit = crate::nfs_handlers::inspect::MAX_NFS_IO_BYTES;
            &&& info.obj_attributes == post_op_attr::attributes(a)
            &&& stated_information(Err(e)).obj_attributes == post_op_attr::Void
            &&& info.rtmax == limit
            &&& info.wtmax == limit
            &&& info.rtpref <= limit
            &&& info.wtpref <= limit
            &&& info.rtmult <= limit
            &&& info.wtmult <= limit
            &&& stat.obj_attributes == post_op_attr::attributes(a)
            &&& stated_statistics(Err(e)).obj_attributes == post_op_attr::Void
            &&& stat.fbytes == stat.tbytes
            &&& stat.abytes == stat.tbytes
            &&& stat.ffiles == stat.tfiles
            &&& stat.afiles == stat.tfiles
        }),
{
}

} // verus!
