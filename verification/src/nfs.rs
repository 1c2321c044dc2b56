//! The data types of NFS version 3 and their encodings (RFC 1813).
use crate::xdr::{
    parse_opaque, parse_u32, reads, reads_view, write_bool, write_opaque, write_u32, write_u64,
    xdr_bool, xdr_opaque, xdr_u32, xdr_u64, Input, Parsed, XdrError,
};
use vstd::prelude::*;

verus! {

/// The RPC program number of NFS.
pub const PROGRAM: u32 = 100003;

/// The version of the NFS program.
pub const VERSION: u32 = 3;

/// The length of a write verifier.
pub const NFS3_WRITEVERFSIZE: u32 = 8;

/// File system property: symbolic links are supported.
pub const FSF_SYMLINK: u32 = 0x0002;

/// File system property: every object has the same path configuration.
pub const FSF_HOMOGENEOUS: u32 = 0x0008;

/// File system property: times can be set by clients.
pub const FSF_CANSETTIME: u32 = 0x0010;

pub type fileid3 = u64;

pub type cookie3 = u64;

pub type offset3 = u64;

pub type count3 = u32;

pub type cookieverf3 = [u8; 8];

pub type writeverf3 = [u8; 8];

/// A file name.
pub type filename3 = nfsstring;

/// A path name.
pub type nfspath3 = nfsstring;

// ------------------------------------------------------------- enumerations

/// The status of a reply.
#[derive(Clone, Copy, Debug, PartialEq, Eq, Structural)]
pub enum nfsstat3 {
    NFS3_OK,
    NFS3ERR_PERM,
    NFS3ERR_NOENT,
    NFS3ERR_IO,
    NFS3ERR_NXIO,
    NFS3ERR_ACCES,
    NFS3ERR_EXIST,
    NFS3ERR_XDEV,
    NFS3ERR_NODEV,
    NFS3ERR_NOTDIR,
    NFS3ERR_ISDIR,
    NFS3ERR_INVAL,
    NFS3ERR_FBIG,
    NFS3ERR_NOSPC,
    NFS3ERR_ROFS,
    NFS3ERR_MLINK,
    NFS3ERR_NAMETOOLONG,
    NFS3ERR_NOTEMPTY,
    NFS3ERR_DQUOT,
    NFS3ERR_STALE,
    NFS3ERR_REMOTE,
    NFS3ERR_BADHANDLE,
    NFS3ERR_NOT_SYNC,
    NFS3ERR_BAD_COOKIE,
    NFS3ERR_NOTSUPP,
    NFS3ERR_TOOSMALL,
    NFS3ERR_SERVERFAULT,
    NFS3ERR_BADTYPE,
    NFS3ERR_JUKEBOX,
}

impl nfsstat3 {
    /// The number that stands for the status on the wire.
    pub open spec fn number(self) -> u32 {
        match self {
            nfsstat3::NFS3_OK => 0,
            nfsstat3::NFS3ERR_PERM => 1,
            nfsstat3::NFS3ERR_NOENT => 2,
            nfsstat3::NFS3ERR_IO => 5,
            nfsstat3::NFS3ERR_NXIO => 6,
            nfsstat3::NFS3ERR_ACCES => 13,
            nfsstat3::NFS3ERR_EXIST => 17,
            nfsstat3::NFS3ERR_XDEV => 18,
            nfsstat3::NFS3ERR_NODEV => 19,
            nfsstat3::NFS3ERR_NOTDIR => 20,
            nfsstat3::NFS3ERR_ISDIR => 21,
            nfsstat3::NFS3ERR_INVAL => 22,
            nfsstat3::NFS3ERR_FBIG => 27,
            nfsstat3::NFS3ERR_NOSPC => 28,
            nfsstat3::NFS3ERR_ROFS => 30,
            nfsstat3::NFS3ERR_MLINK => 31,
            nfsstat3::NFS3ERR_NAMETOOLONG => 63,
            nfsstat3::NFS3ERR_NOTEMPTY => 66,
            nfsstat3::NFS3ERR_DQUOT => 69,
            nfsstat3::NFS3ERR_STALE => 70,
            nfsstat3::NFS3ERR_REMOTE => 71,
            nfsstat3::NFS3ERR_BADHANDLE => 10001,
            nfsstat3::NFS3ERR_NOT_SYNC => 10002,
            nfsstat3::NFS3ERR_BAD_COOKIE => 10003,
            nfsstat3::NFS3ERR_NOTSUPP => 10004,
            nfsstat3::NFS3ERR_TOOSMALL => 10005,
            nfsstat3::NFS3ERR_SERVERFAULT => 10006,
            nfsstat3::NFS3ERR_BADTYPE => 10007,
            nfsstat3::NFS3ERR_JUKEBOX => 10008,
        }
    }

    pub open spec fn encoding(self) -> Seq<u8> {
        xdr_u32(self.number())
    }

    pub fn to_u32(self) -> (n: u32)
        ensures
            n == self.number(),
    {
        match self {
            nfsstat3::NFS3_OK => 0,
            nfsstat3::NFS3ERR_PERM => 1,
            nfsstat3::NFS3ERR_NOENT => 2,
            nfsstat3::NFS3ERR_IO => 5,
            nfsstat3::NFS3ERR_NXIO => 6,
            nfsstat3::NFS3ERR_ACCES => 13,
            nfsstat3::NFS3ERR_EXIST => 17,
            nfsstat3::NFS3ERR_XDEV => 18,
            nfsstat3::NFS3ERR_NODEV => 19,
            nfsstat3::NFS3ERR_NOTDIR => 20,
            nfsstat3::NFS3ERR_ISDIR => 21,
            nfsstat3::NFS3ERR_INVAL => 22,
            nfsstat3::NFS3ERR_FBIG => 27,
            nfsstat3::NFS3ERR_NOSPC => 28,
            nfsstat3::NFS3ERR_ROFS => 30,
            nfsstat3::NFS3ERR_MLINK => 31,
            nfsstat3::NFS3ERR_NAMETOOLONG => 63,
            nfsstat3::NFS3ERR_NOTEMPTY => 66,
            nfsstat3::NFS3ERR_DQUOT => 69,
            nfsstat3::NFS3ERR_STALE => 70,
            nfsstat3::NFS3ERR_REMOTE => 71,
            nfsstat3::NFS3ERR_BADHANDLE => 10001,
            nfsstat3::NFS3ERR_NOT_SYNC => 10002,
            nfsstat3::NFS3ERR_BAD_COOKIE => 10003,
            nfsstat3::NFS3ERR_NOTSUPP => 10004,
            nfsstat3::NFS3ERR_TOOSMALL => 10005,
            nfsstat3::NFS3ERR_SERVERFAULT => 10006,
            nfsstat3::NFS3ERR_BADTYPE => 10007,
            nfsstat3::NFS3ERR_JUKEBOX => 10008,
        }
    }

    pub fn serialize(self, out: &mut Vec<u8>)
        ensures
            final(out)@ == old(out)@ + self.encoding(),
    {
        write_u32(out, self.to_u32());
    }
}

/// Two statuses with one number are one status.
pub proof fn lemma_status_numbers_differ(a: nfsstat3, b: nfsstat3)
    ensures
        a.number() == b.number() ==> a == b,
{
}

/// The type of a file.
#[derive(Clone, Copy, Debug, PartialEq, Eq, Structural)]
pub enum ftype3 {
    NF3REG,
    NF3DIR,
    NF3BLK,
    NF3CHR,
    NF3LNK,
    NF3SOCK,
    NF3FIFO,
}

impl ftype3 {
    pub open spec fn number(self) -> u32 {
        match self {
            ftype3::NF3REG => 1,
            ftype3::NF3DIR => 2,
            ftype3::NF3BLK => 3,
            ftype3::NF3CHR => 4,
            ftype3::NF3LNK => 5,
            ftype3::NF3SOCK => 6,
            ftype3::NF3FIFO => 7,
        }
    }

    pub open spec fn of_number(n: u32) -> Option<ftype3> {
        if n == 1 {
            Some(ftype3::NF3REG)
        } else if n == 2 {
            Some(ftype3::NF3DIR)
        } else if n == 3 {
            Some(ftype3::NF3BLK)
        } else if n == 4 {
            Some(ftype3::NF3CHR)
        } else if n == 5 {
            Some(ftype3::NF3LNK)
        } else if n == 6 {
            Some(ftype3::NF3SOCK)
        } else if n == 7 {
            Some(ftype3::NF3FIFO)
        } else {
            None
        }
    }

    pub fn to_u32(self) -> (n: u32)
        ensures
            n == self.number(),
    {
        match self {
            ftype3::NF3REG => 1,
            ftype3::NF3DIR => 2,
            ftype3::NF3BLK => 3,
            ftype3::NF3CHR => 4,
            ftype3::NF3LNK => 5,
            ftype3::NF3SOCK => 6,
            ftype3::NF3FIFO => 7,
        }
    }

    pub fn from_u32(n: u32) -> (r: Option<ftype3>)
        ensures
            r == ftype3::of_number(n),
    {
        match n {
            1 => Some(ftype3::NF3REG),
            2 => Some(ftype3::NF3DIR),
            3 => Some(ftype3::NF3BLK),
            4 => Some(ftype3::NF3CHR),
            5 => Some(ftype3::NF3LNK),
            6 => Some(ftype3::NF3SOCK),
            7 => Some(ftype3::NF3FIFO),
            _ => None,
        }
    }
}

/// How durable written data is, or is asked to be.
#[derive(Clone, Copy, Debug, PartialEq, Eq, Structural)]
pub enum stable_how {
    UNSTABLE,
    DATA_SYNC,
    FILE_SYNC,
}

impl stable_how {
    pub open spec fn number(self) -> u32 {
        match self {
            stable_how::UNSTABLE => 0,
            stable_how::DATA_SYNC => 1,
            stable_how::FILE_SYNC => 2,
        }
    }

    pub open spec fn of_number(n: u32) -> Option<stable_how> {
        if n == 0 {
            Some(stable_how::UNSTABLE)
        } else if n == 1 {
            Some(stable_how::DATA_SYNC)
        } else if n == 2 {
            Some(stable_how::FILE_SYNC)
        } else {
            None
        }
    }

    pub fn to_u32(self) -> (n: u32)
        ensures
            n == self.number(),
    {
        match self {
            stable_how::UNSTABLE => 0,
            stable_how::DATA_SYNC => 1,
            stable_how::FILE_SYNC => 2,
        }
    }

    pub fn from_u32(n: u32) -> (r: Option<stable_how>)
        ensures
            r == stable_how::of_number(n),
    {
        match n {
            0 => Some(stable_how::UNSTABLE),
            1 => Some(stable_how::DATA_SYNC),
            2 => Some(stable_how::FILE_SYNC),
            _ => None,
        }
    }
}

/// The numbers of file types and stability levels lead back to them.
pub proof fn lemma_numbers_lead_back(ftype: ftype3, how: stable_how)
    ensures
        ftype3::of_number(ftype.number()) == Some(ftype),
        stable_how::of_number(how.number()) == Some(how),
{
}

// ----------------------------------------------------- handles, names, times

/// A file handle, opaque to clients.
#[derive(Clone, Debug, PartialEq, Eq)]
pub struct nfs_fh3 {
    pub data: Vec<u8>,
}

impl View for nfs_fh3 {
    type V = Seq<u8>;

    open spec fn view(&self) -> Seq<u8> {
        self.data@
    }
}

impl Default for nfs_fh3 {
    fn default() -> (r: nfs_fh3)
        ensures
            r@ == Seq::<u8>::empty(),
    {
        nfs_fh3 { data: Vec::new() }
    }
}

impl nfs_fh3 {
    pub fn serialize(&self, out: &mut Vec<u8>)
        requires
            self@.len() <= u32::MAX,
        ensures
            final(out)@ == old(out)@ + xdr_opaque(self@),
    {
        write_opaque(out, &self.data);
    }

    pub fn deserialize(input: &mut Input) -> (r: Result<nfs_fh3, XdrError>)
        ensures
            reads_view(parse_opaque(old(input)@), r, final(input)@),
    {
        Ok(nfs_fh3 { data: input.read_opaque()? })
    }
}

/// A name or a path: any bytes.
#[derive(Debug, PartialEq, Eq)]
pub struct nfsstring(pub Vec<u8>);

impl Clone for nfsstring {
    fn clone(&self) -> (r: nfsstring)
        ensures
            r@ == self@,
    {
        let bytes = self.0.clone();
        assert(bytes@ =~= self.0@);
        nfsstring(bytes)
    }
}

impl View for nfsstring {
    type V = Seq<u8>;

    open spec fn view(&self) -> Seq<u8> {
        self.0@
    }
}

impl Default for nfsstring {
    fn default() -> (r: nfsstring)
        ensures
            r@ == Seq::<u8>::empty(),
    {
        nfsstring(Vec::new())
    }
}

impl nfsstring {
    pub fn serialize(&self, out: &mut Vec<u8>)
        requires
            self@.len() <= u32::MAX,
        ensures
            final(out)@ == old(out)@ + xdr_opaque(self@),
    {
        write_opaque(out, &self.0);
    }

    pub fn deserialize(input: &mut Input) -> (r: Result<nfsstring, XdrError>)
        ensures
            reads_view(parse_opaque(old(input)@), r, final(input)@),
    {
        Ok(nfsstring(input.read_opaque()?))
    }
}

/// A time since the epoch.
#[derive(Clone, Copy, Debug, PartialEq, Eq, Structural)]
pub struct nfstime3 {
    pub seconds: u32,
    pub nseconds: u32,
}

impl nfstime3 {
    pub open spec fn encoding(self) -> Seq<u8> {
        xdr_u32(self.seconds) + xdr_u32(self.nseconds)
    }

    pub fn serialize(&self, out: &mut Vec<u8>)
        ensures
            final(out)@ == old(out)@ + self.encoding(),
    {
        write_u32(out, self.seconds);
        write_u32(out, self.nseconds);
        assert(out@ =~= old(out)@ + self.encoding());
    }

    pub fn deserialize(input: &mut Input) -> (r: Result<nfstime3, XdrError>)
        ensures
            reads(parse_nfstime3(old(input)@), r, final(input)@),
    {
        let seconds: u32 = input.read_u32()?;
        let nseconds: u32 = input.read_u32()?;
        Ok(nfstime3 { seconds, nseconds })
    }
}

pub open spec fn parse_nfstime3(s: Seq<u8>) -> Parsed<nfstime3> {
    match parse_u32(s) {
        Err(e) => Err(e),
        Ok((seconds, s)) => match parse_u32(s) {
            Err(e) => Err(e),
            Ok((nseconds, s)) => Ok((nfstime3 { seconds, nseconds }, s)),
        },
    }
}

/// The major and minor number of a device.
#[derive(Clone, Copy, Debug, PartialEq, Eq, Structural)]
pub struct specdata3 {
    pub specdata1: u32,
    pub specdata2: u32,
}

impl specdata3 {
    pub open spec fn encoding(self) -> Seq<u8> {
        xdr_u32(self.specdata1) + xdr_u32(self.specdata2)
    }

    pub fn serialize(&self, out: &mut Vec<u8>)
        ensures
            final(out)@ == old(out)@ + self.encoding(),
    {
        write_u32(out, self.specdata1);
        write_u32(out, self.specdata2);
        assert(out@ =~= old(out)@ + self.encoding());
    }

    pub fn deserialize(input: &mut Input) -> (r: Result<specdata3, XdrError>)
        ensures
            reads(parse_specdata3(old(input)@), r, final(input)@),
    {
        let specdata1: u32 = input.read_u32()?;
        let specdata2: u32 = input.read_u32()?;
        Ok(specdata3 { specdata1, specdata2 })
    }
}

pub open spec fn parse_specdata3(s: Seq<u8>) -> Parsed<specdata3> {
    match parse_u32(s) {
        Err(e) => Err(e),
        Ok((specdata1, s)) => match parse_u32(s) {
            Err(e) => Err(e),
            Ok((specdata2, s)) => Ok((specdata3 { specdata1, specdata2 }, s)),
        },
    }
}

// --------------------------------------------------------------- attributes

/// The attributes of a file.
#[derive(Clone, Copy, Debug, PartialEq, Eq, Structural)]
pub struct fattr3 {
    pub ftype: ftype3,
    pub mode: u32,
    pub nlink: u32,
    pub uid: u32,
    pub gid: u32,
    pub size: u64,
    pub used: u64,
    pub rdev: specdata3,
    pub fsid: u64,
    pub fileid: fileid3,
    pub atime: nfstime3,
    pub mtime: nfstime3,
    pub ctime: nfstime3,
}

impl Default for fattr3 {
    fn default() -> (r: fattr3)
        ensures
            r == fattr3::zero(),
    {
        let zero = nfstime3 { seconds: 0, nseconds: 0 };
        fattr3 {
            ftype: ftype3::NF3REG,
            mode: 0,
            nlink: 0,
            uid: 0,
            gid: 0,
            size: 0,
            used: 0,
            rdev: specdata3 { specdata1: 0, specdata2: 0 },
            fsid: 0,
            fileid: 0,
            atime: zero,
            mtime: zero,
            ctime: zero,
        }
    }
}

impl fattr3 {
    /// A regular file of which everything else is zero.
    pub open spec fn zero() -> fattr3 {
        fattr3 {
            ftype: ftype3::NF3REG,
            mode: 0,
            nlink: 0,
            uid: 0,
            gid: 0,
            size: 0,
            used: 0,
            rdev: specdata3 { specdata1: 0, specdata2: 0 },
            fsid: 0,
            fileid: 0,
            atime: nfstime3 { seconds: 0, nseconds: 0 },
            mtime: nfstime3 { seconds: 0, nseconds: 0 },
            ctime: nfstime3 { seconds: 0, nseconds: 0 },
        }
    }

    pub open spec fn encoding(self) -> Seq<u8> {
        xdr_u32(self.ftype.number()) + xdr_u32(self.mode) + xdr_u32(self.nlink) + xdr_u32(self.uid)
            + xdr_u32(self.gid) + xdr_u64(self.size) + xdr_u64(self.used) + self.rdev.encoding()
            + xdr_u64(self.fsid) + xdr_u64(self.fileid) + self.atime.encoding()
            + self.mtime.encoding() + self.ctime.encoding()
    }

    pub fn serialize(&self, out: &mut Vec<u8>)
        ensures
            final(out)@ == old(out)@ + self.encoding(),
    {
        write_u32(out, self.ftype.to_u32());
        write_u32(out, self.mode);
        write_u32(out, self.nlink);
        write_u32(out, self.uid);
        write_u32(out, self.gid);
        write_u64(out, self.size);
        write_u64(out, self.used);
        self.rdev.serialize(out);
        write_u64(out, self.fsid);
        write_u64(out, self.fileid);
        self.atime.serialize(out);
        self.mtime.serialize(out);
        self.ctime.serialize(out);
        assert(out@ =~= old(out)@ + self.encoding());
    }

    /// The attributes by which a client tells whether the file changed.
    pub open spec fn wcc(self) -> wcc_attr {
        wcc_attr { size: self.size, mtime: self.mtime, ctime: self.ctime }
    }
}

/// The attributes that are kept for weak cache consistency.
#[derive(Clone, Copy, Debug, PartialEq, Eq, Structural)]
pub struct wcc_attr {
    pub size: u64,
    pub mtime: nfstime3,
    pub ctime: nfstime3,
}

impl wcc_attr {
    pub open spec fn encoding(self) -> Seq<u8> {
        xdr_u64(self.size) + self.mtime.encoding() + self.ctime.encoding()
    }

    pub fn serialize(&self, out: &mut Vec<u8>)
        ensures
            final(out)@ == old(out)@ + self.encoding(),
    {
        write_u64(out, self.size);
        self.mtime.serialize(out);
        self.ctime.serialize(out);
        assert(out@ =~= old(out)@ + self.encoding());
    }
}

/// The attributes of an object before an operation, if they are known.
#[derive(Clone, Copy, Debug, PartialEq, Eq, Structural)]
pub enum pre_op_attr {
    Void,
    attributes(wcc_attr),
}

impl pre_op_attr {
    pub open spec fn encoding(self) -> Seq<u8> {
        match self {
            pre_op_attr::Void => xdr_bool(false),
            pre_op_attr::attributes(a) => xdr_bool(true) + a.encoding(),
        }
    }

    /// What is known before an operation, given the answer to a `getattr`.
    pub open spec fn of_getattr(r: Result<fattr3, nfsstat3>) -> pre_op_attr {
        match r {
            Ok(a) => pre_op_attr::attributes(a.wcc()),
            Err(_) => pre_op_attr::Void,
        }
    }

    pub fn from_getattr(r: &Result<fattr3, nfsstat3>) -> (p: pre_op_attr)
        ensures
            p == pre_op_attr::of_getattr(*r),
    {
        match r {
            Ok(a) => pre_op_attr::attributes(
                wcc_attr { size: a.size, mtime: a.mtime, ctime: a.ctime },
            ),
            Err(_) => pre_op_attr::Void,
        }
    }

    pub fn serialize(&self, out: &mut Vec<u8>)
        ensures
            final(out)@ == old(out)@ + self.encoding(),
    {
        match self {
            pre_op_attr::Void => {
                write_bool(out, false);
            },
            pre_op_attr::attributes(a) => {
                write_bool(out, true);
                a.serialize(out);
                assert(out@ =~= old(out)@ + self.encoding());
            },
        }
    }
}

/// The attributes of an object after an operation, if they are known.
#[derive(Clone, Copy, Debug, PartialEq, Eq, Structural)]
pub enum post_op_attr {
    Void,
    attributes(fattr3),
}

impl post_op_attr {
    pub open spec fn encoding(self) -> Seq<u8> {
        match self {
            post_op_attr::Void => xdr_bool(false),
            post_op_attr::attributes(a) => xdr_bool(true) + a.encoding(),
        }
    }

    /// What is known after an operation, given the answer to a `getattr`.
    pub open spec fn of_getattr(r: Result<fattr3, nfsstat3>) -> post_op_attr {
        match r {
            Ok(a) => post_op_attr::attributes(a),
            Err(_) => post_op_attr::Void,
        }
    }

    pub fn from_getattr(r: &Result<fattr3, nfsstat3>) -> (p: post_op_attr)
        ensures
            p == post_op_attr::of_getattr(*r),
    {
        match r {
            Ok(a) => post_op_attr::attributes(*a),
            Err(_) => post_op_attr::Void,
        }
    }

    pub fn serialize(&self, out: &mut Vec<u8>)
        ensures
            final(out)@ == old(out)@ + self.encoding(),
    {
        match self {
            post_op_attr::Void => {
                write_bool(out, false);
            },
            post_op_attr::attributes(a) => {
                write_bool(out, true);
                a.serialize(out);
                assert(out@ =~= old(out)@ + self.encoding());
            },
        }
    }
}

/// What is known of an object before and after an operation on it.
#[derive(Clone, Copy, Debug, PartialEq, Eq, Structural)]
pub struct wcc_data {
    pub before: pre_op_attr,
    pub after: post_op_attr,
}

impl Default for wcc_data {
    fn default() -> (r: wcc_data)
        ensures
            r == wcc_data::unknown(),
    {
        wcc_data { before: pre_op_attr::Void, after: post_op_attr::Void }
    }
}

impl wcc_data {
    /// Nothing is known of the object.
    pub open spec fn unknown() -> wcc_data {
        wcc_data { before: pre_op_attr::Void, after: post_op_attr::Void }
    }

    pub open spec fn encoding(self) -> Seq<u8> {
        self.before.encoding() + self.after.encoding()
    }

    pub fn serialize(&self, out: &mut Vec<u8>)
        ensures
            final(out)@ == old(out)@ + self.encoding(),
    {
        self.before.serialize(out);
        self.after.serialize(out);
        assert(out@ =~= old(out)@ + self.encoding());
    }
}

/// The optional file handle of a new object, which is always present here.
pub open spec fn present_handle(handle: Seq<u8>) -> Seq<u8> {
    xdr_bool(true) + xdr_opaque(handle)
}

/// The handle of an object that an operation made, if there is one.
#[derive(Clone, Debug, PartialEq, Eq)]
pub enum post_op_fh3 {
    Void,
    handle(nfs_fh3),
}

impl post_op_fh3 {
    pub open spec fn encoding(self) -> Seq<u8> {
        match self {
            post_op_fh3::Void => xdr_bool(false),
            post_op_fh3::handle(fh) => present_handle(fh@),
        }
    }

    pub fn serialize(&self, out: &mut Vec<u8>)
        requires
            self matches post_op_fh3::handle(fh) ==> fh@.len() <= u32::MAX,
        ensures
            final(out)@ == old(out)@ + self.encoding(),
    {
        match self {
            post_op_fh3::Void => {
                write_bool(out, false);
            },
            post_op_fh3::handle(fh) => {
                write_bool(out, true);
                fh.serialize(out);
                assert(out@ =~= old(out)@ + self.encoding());
            },
        }
    }
}

// ------------------------------------------------------------- file systems

/// Static information about a file system.
#[derive(Clone, Copy, Debug, PartialEq, Eq, Structural)]
pub struct fsinfo3 {
    pub obj_attributes: post_op_attr,
    pub rtmax: u32,
    pub rtpref: u32,
    pub rtmult: u32,
    pub wtmax: u32,
    pub wtpref: u32,
    pub wtmult: u32,
    pub dtpref: u32,
    pub maxfilesize: u64,
    pub time_delta: nfstime3,
    pub properties: u32,
}

impl fsinfo3 {
    pub open spec fn encoding(self) -> Seq<u8> {
        self.obj_attributes.encoding() + xdr_u32(self.rtmax) + xdr_u32(self.rtpref) + xdr_u32(
            self.rtmult,
        ) + xdr_u32(self.wtmax) + xdr_u32(self.wtpref) + xdr_u32(self.wtmult) + xdr_u32(self.dtpref)
            + xdr_u64(self.maxfilesize) + self.time_delta.encoding() + xdr_u32(self.properties)
    }

    pub fn serialize(&self, out: &mut Vec<u8>)
        ensures
            final(out)@ == old(out)@ + self.encoding(),
    {
        self.obj_attributes.serialize(out);
        write_u32(out, self.rtmax);
        write_u32(out, self.rtpref);
        write_u32(out, self.rtmult);
        write_u32(out, self.wtmax);
        write_u32(out, self.wtpref);
        write_u32(out, self.wtmult);
        write_u32(out, self.dtpref);
        write_u64(out, self.maxfilesize);
        self.time_delta.serialize(out);
        write_u32(out, self.properties);
        assert(out@ =~= old(out)@ + self.encoding());
    }
}

/// Space and objects in a file system.
#[derive(Clone, Copy, Debug, PartialEq, Eq, Structural)]
pub struct fsstat3 {
    pub obj_attributes: post_op_attr,
    pub tbytes: u64,
    pub fbytes: u64,
    pub abytes: u64,
    pub tfiles: u64,
    pub ffiles: u64,
    pub afiles: u64,
    pub invarsec: u32,
}

impl fsstat3 {
    pub open spec fn encoding(self) -> Seq<u8> {
        self.obj_attributes.encoding() + xdr_u64(self.tbytes) + xdr_u64(self.fbytes) + xdr_u64(
            self.abytes,
        ) + xdr_u64(self.tfiles) + xdr_u64(self.ffiles) + xdr_u64(self.afiles) + xdr_u32(
            self.invarsec,
        )
    }

    pub fn serialize(&self, out: &mut Vec<u8>)
        ensures
            final(out)@ == old(out)@ + self.encoding(),
    {
        self.obj_attributes.serialize(out);
        write_u64(out, self.tbytes);
        write_u64(out, self.fbytes);
        write_u64(out, self.abytes);
        write_u64(out, self.tfiles);
        write_u64(out, self.ffiles);
        write_u64(out, self.afiles);
        write_u32(out, self.invarsec);
        assert(out@ =~= old(out)@ + self.encoding());
    }
}

} // verus!
