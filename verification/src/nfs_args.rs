//! The arguments of the NFS version 3 procedures and their encodings (RFC 1813).
//!
//! A structure is viewed as the tuple of its fields in wire order, with names,
//! handles and data as byte sequences.
use crate::nfs::{
    cookie3, cookieverf3, count3, filename3, ftype3, nfs_fh3, nfspath3, nfsstring, nfstime3,
    offset3, parse_nfstime3, parse_specdata3, specdata3,
};
use crate::xdr::{
    bool_round_trip, concat_assoc, opaque8_round_trip, opaque_round_trip, parse_bool, parse_opaque,
    parse_opaque8, parse_u32, parse_u64, reads, reads_view, u32_round_trip, u64_round_trip,
    write_bool, write_bytes, write_opaque, write_u32, write_u64, xdr_bool, xdr_opaque, xdr_u32,
    xdr_u64, Input, Parsed, XdrError,
};
use vstd::prelude::*;

verus! {

/// Reading gives back the time that was written, and what follows it.
pub broadcast proof fn nfstime3_round_trip(t: nfstime3, rest: Seq<u8>)
    ensures
        #[trigger] parse_nfstime3(t.encoding() + rest) == Ok::<(nfstime3, Seq<u8>), XdrError>(
            (t, rest),
        ),
{
    assert(t.encoding() + rest =~= xdr_u32(t.seconds) + (xdr_u32(t.nseconds) + rest));
    u32_round_trip(t.seconds, xdr_u32(t.nseconds) + rest);
    u32_round_trip(t.nseconds, rest);
}

/// Reading gives back the device numbers that were written, and what follows them.
pub broadcast proof fn specdata3_round_trip(d: specdata3, rest: Seq<u8>)
    ensures
        #[trigger] parse_specdata3(d.encoding() + rest) == Ok::<(specdata3, Seq<u8>), XdrError>(
            (d, rest),
        ),
{
    assert(d.encoding() + rest =~= xdr_u32(d.specdata1) + (xdr_u32(d.specdata2) + rest));
    u32_round_trip(d.specdata1, xdr_u32(d.specdata2) + rest);
    u32_round_trip(d.specdata2, rest);
}

/// The mode to set, if any.
#[derive(Clone, Copy, Debug, PartialEq, Eq, Structural)]
pub enum set_mode3 {
    Void,
    mode(u32),
}

impl set_mode3 {
    pub open spec fn encoding(self) -> Seq<u8> {
        match self {
            set_mode3::Void => xdr_bool(false),
            set_mode3::mode(v) => xdr_bool(true) + xdr_u32(v),
        }
    }

    pub fn serialize(&self, out: &mut Vec<u8>)
        ensures
            final(out)@ == old(out)@ + self.encoding(),
    {
        match self {
            set_mode3::Void => {
                write_bool(out, false);
            },
            set_mode3::mode(v) => {
                write_bool(out, true);
                write_u32(out, *v);
                assert(out@ =~= old(out)@ + self.encoding());
            },
        }
    }

    pub fn deserialize(input: &mut Input) -> (r: Result<set_mode3, XdrError>)
        ensures
            reads(parse_set_mode3(old(input)@), r, final(input)@),
    {
        if input.read_bool()? {
            Ok(set_mode3::mode(input.read_u32()?))
        } else {
            Ok(set_mode3::Void)
        }
    }
}

pub open spec fn parse_set_mode3(s: Seq<u8>) -> Parsed<set_mode3> {
    match parse_bool(s) {
        Err(e) => Err(e),
        Ok((present, s)) => if present {
            match parse_u32(s) {
                Err(e) => Err(e),
                Ok((v, s)) => Ok((set_mode3::mode(v), s)),
            }
        } else {
            Ok((set_mode3::Void, s))
        },
    }
}

/// Reading gives back what was written, and what follows it.
pub broadcast proof fn set_mode3_round_trip(u: set_mode3, rest: Seq<u8>)
    ensures
        #[trigger] parse_set_mode3(u.encoding() + rest) == Ok::<(set_mode3, Seq<u8>), XdrError>(
            (u, rest),
        ),
{
    match u {
        set_mode3::Void => {
            bool_round_trip(false, rest);
        },
        set_mode3::mode(v) => {
            let behind = xdr_u32(v) + rest;
            assert(u.encoding() + rest =~= xdr_bool(true) + behind);
            bool_round_trip(true, behind);
            u32_round_trip(v, rest);
        },
    }
}

/// The owner to set, if any.
#[derive(Clone, Copy, Debug, PartialEq, Eq, Structural)]
pub enum set_uid3 {
    Void,
    uid(u32),
}

impl set_uid3 {
    pub open spec fn encoding(self) -> Seq<u8> {
        match self {
            set_uid3::Void => xdr_bool(false),
            set_uid3::uid(v) => xdr_bool(true) + xdr_u32(v),
        }
    }

    pub fn serialize(&self, out: &mut Vec<u8>)
        ensures
            final(out)@ == old(out)@ + self.encoding(),
    {
        match self {
            set_uid3::Void => {
                write_bool(out, false);
            },
            set_uid3::uid(v) => {
                write_bool(out, true);
                write_u32(out, *v);
                assert(out@ =~= old(out)@ + self.encoding());
            },
        }
    }

    pub fn deserialize(input: &mut Input) -> (r: Result<set_uid3, XdrError>)
        ensures
            reads(parse_set_uid3(old(input)@), r, final(input)@),
    {
        if input.read_bool()? {
            Ok(set_uid3::uid(input.read_u32()?))
        } else {
            Ok(set_uid3::Void)
        }
    }
}

pub open spec fn parse_set_uid3(s: Seq<u8>) -> Parsed<set_uid3> {
    match parse_bool(s) {
        Err(e) => Err(e),
        Ok((present, s)) => if present {
            match parse_u32(s) {
                Err(e) => Err(e),
                Ok((v, s)) => Ok((set_uid3::uid(v), s)),
            }
        } else {
            Ok((set_uid3::Void, s))
        },
    }
}

/// Reading gives back what was written, and what follows it.
pub broadcast proof fn set_uid3_round_trip(u: set_uid3, rest: Seq<u8>)
    ensures
        #[trigger] parse_set_uid3(u.encoding() + rest) == Ok::<(set_uid3, Seq<u8>), XdrError>(
            (u, rest),
        ),
{
    match u {
        set_uid3::Void => {
            bool_round_trip(false, rest);
        },
        set_uid3::uid(v) => {
            let behind = xdr_u32(v) + rest;
            assert(u.encoding() + rest =~= xdr_bool(true) + behind);
            bool_round_trip(true, behind);
            u32_round_trip(v, rest);
        },
    }
}

/// The group to set, if any.
#[derive(Clone, Copy, Debug, PartialEq, Eq, Structural)]
pub enum set_gid3 {
    Void,
    gid(u32),
}

impl set_gid3 {
    pub open spec fn encoding(self) -> Seq<u8> {
        match self {
            set_gid3::Void => xdr_bool(false),
            set_gid3::gid(v) => xdr_bool(true) + xdr_u32(v),
        }
    }

    pub fn serialize(&self, out: &mut Vec<u8>)
        ensures
            final(out)@ == old(out)@ + self.encoding(),
    {
        match self {
            set_gid3::Void => {
                write_bool(out, false);
            },
            set_gid3::gid(v) => {
                write_bool(out, true);
                write_u32(out, *v);
                assert(out@ =~= old(out)@ + self.encoding());
            },
        }
    }

    pub fn deserialize(input: &mut Input) -> (r: Result<set_gid3, XdrError>)
        ensures
            reads(parse_set_gid3(old(input)@), r, final(input)@),
    {
        if input.read_bool()? {
            Ok(set_gid3::gid(input.read_u32()?))
        } else {
            Ok(set_gid3::Void)
        }
    }
}

pub open spec fn parse_set_gid3(s: Seq<u8>) -> Parsed<set_gid3> {
    match parse_bool(s) {
        Err(e) => Err(e),
        Ok((present, s)) => if present {
            match parse_u32(s) {
                Err(e) => Err(e),
                Ok((v, s)) => Ok((set_gid3::gid(v), s)),
            }
        } else {
            Ok((set_gid3::Void, s))
        },
    }
}

/// Reading gives back what was written, and what follows it.
pub broadcast proof fn set_gid3_round_trip(u: set_gid3, rest: Seq<u8>)
    ensures
        #[trigger] parse_set_gid3(u.encoding() + rest) == Ok::<(set_gid3, Seq<u8>), XdrError>(
            (u, rest),
        ),
{
    match u {
        set_gid3::Void => {
            bool_round_trip(false, rest);
        },
        set_gid3::gid(v) => {
            let behind = xdr_u32(v) + rest;
            assert(u.encoding() + rest =~= xdr_bool(true) + behind);
            bool_round_trip(true, behind);
            u32_round_trip(v, rest);
        },
    }
}

/// The size to set, if any.
#[derive(Clone, Copy, Debug, PartialEq, Eq, Structural)]
pub enum set_size3 {
    Void,
    size(u64),
}

impl set_size3 {
    pub open spec fn encoding(self) -> Seq<u8> {
        match self {
            set_size3::Void => xdr_bool(false),
            set_size3::size(v) => xdr_bool(true) + xdr_u64(v),
        }
    }

    pub fn serialize(&self, out: &mut Vec<u8>)
        ensures
            final(out)@ == old(out)@ + self.encoding(),
    {
        match self {
            set_size3::Void => {
                write_bool(out, false);
            },
            set_size3::size(v) => {
                write_bool(out, true);
                write_u64(out, *v);
                assert(out@ =~= old(out)@ + self.encoding());
            },
        }
    }

    pub fn deserialize(input: &mut Input) -> (r: Result<set_size3, XdrError>)
        ensures
            reads(parse_set_size3(old(input)@), r, final(input)@),
    {
        if input.read_bool()? {
            Ok(set_size3::size(input.read_u64()?))
        } else {
            Ok(set_size3::Void)
        }
    }
}

pub open spec fn parse_set_size3(s: Seq<u8>) -> Parsed<set_size3> {
    match parse_bool(s) {
        Err(e) => Err(e),
        Ok((present, s)) => if present {
            match parse_u64(s) {
                Err(e) => Err(e),
                Ok((v, s)) => Ok((set_size3::size(v), s)),
            }
        } else {
            Ok((set_size3::Void, s))
        },
    }
}

/// Reading gives back what was written, and what follows it.
pub broadcast proof fn set_size3_round_trip(u: set_size3, rest: Seq<u8>)
    ensures
        #[trigger] parse_set_size3(u.encoding() + rest) == Ok::<(set_size3, Seq<u8>), XdrError>(
            (u, rest),
        ),
{
    match u {
        set_size3::Void => {
            bool_round_trip(false, rest);
        },
        set_size3::size(v) => {
            let behind = xdr_u64(v) + rest;
            assert(u.encoding() + rest =~= xdr_bool(true) + behind);
            bool_round_trip(true, behind);
            u64_round_trip(v, rest);
        },
    }
}

/// The change time that an object must still have for its attributes to be set, if any.
#[derive(Clone, Copy, Debug, PartialEq, Eq, Structural)]
pub enum sattrguard3 {
    Void,
    obj_ctime(nfstime3),
}

impl Default for sattrguard3 {
    fn default() -> (r: sattrguard3)
        ensures
            r == sattrguard3::Void,
    {
        sattrguard3::Void
    }
}

impl sattrguard3 {
    pub open spec fn encoding(self) -> Seq<u8> {
        match self {
            sattrguard3::Void => xdr_bool(false),
            sattrguard3::obj_ctime(v) => xdr_bool(true) + v.encoding(),
        }
    }

    pub fn serialize(&self, out: &mut Vec<u8>)
        ensures
            final(out)@ == old(out)@ + self.encoding(),
    {
        match self {
            sattrguard3::Void => {
                write_bool(out, false);
            },
            sattrguard3::obj_ctime(v) => {
                write_bool(out, true);
                v.serialize(out);
                assert(out@ =~= old(out)@ + self.encoding());
            },
        }
    }

    pub fn deserialize(input: &mut Input) -> (r: Result<sattrguard3, XdrError>)
        ensures
            reads(parse_sattrguard3(old(input)@), r, final(input)@),
    {
        if input.read_bool()? {
            Ok(sattrguard3::obj_ctime(nfstime3::deserialize(input)?))
        } else {
            Ok(sattrguard3::Void)
        }
    }
}

pub open spec fn parse_sattrguard3(s: Seq<u8>) -> Parsed<sattrguard3> {
    match parse_bool(s) {
        Err(e) => Err(e),
        Ok((present, s)) => if present {
            match parse_nfstime3(s) {
                Err(e) => Err(e),
                Ok((v, s)) => Ok((sattrguard3::obj_ctime(v), s)),
            }
        } else {
            Ok((sattrguard3::Void, s))
        },
    }
}

/// Reading gives back what was written, and what follows it.
pub broadcast proof fn sattrguard3_round_trip(u: sattrguard3, rest: Seq<u8>)
    ensures
        #[trigger] parse_sattrguard3(u.encoding() + rest) == Ok::<(sattrguard3, Seq<u8>), XdrError>(
            (u, rest),
        ),
{
    match u {
        sattrguard3::Void => {
            bool_round_trip(false, rest);
        },
        sattrguard3::obj_ctime(v) => {
            let behind = v.encoding() + rest;
            assert(u.encoding() + rest =~= xdr_bool(true) + behind);
            bool_round_trip(true, behind);
            nfstime3_round_trip(v, rest);
        },
    }
}

/// How to set the access time.
#[derive(Clone, Copy, Debug, PartialEq, Eq, Structural)]
pub enum set_atime {
    DONT_CHANGE,
    SET_TO_SERVER_TIME,
    SET_TO_CLIENT_TIME(nfstime3),
}

impl set_atime {
    pub open spec fn encoding(self) -> Seq<u8> {
        match self {
            set_atime::DONT_CHANGE => xdr_u32(0),
            set_atime::SET_TO_SERVER_TIME => xdr_u32(1),
            set_atime::SET_TO_CLIENT_TIME(t) => xdr_u32(2) + t.encoding(),
        }
    }

    pub fn serialize(&self, out: &mut Vec<u8>)
        ensures
            final(out)@ == old(out)@ + self.encoding(),
    {
        match self {
            set_atime::DONT_CHANGE => {
                write_u32(out, 0);
            },
            set_atime::SET_TO_SERVER_TIME => {
                write_u32(out, 1);
            },
            set_atime::SET_TO_CLIENT_TIME(t) => {
                write_u32(out, 2);
                t.serialize(out);
                assert(out@ =~= old(out)@ + self.encoding());
            },
        }
    }

    pub fn deserialize(input: &mut Input) -> (r: Result<set_atime, XdrError>)
        ensures
            reads(parse_set_atime(old(input)@), r, final(input)@),
    {
        let how: u32 = input.read_u32()?;
        match how {
            0 => Ok(set_atime::DONT_CHANGE),
            1 => Ok(set_atime::SET_TO_SERVER_TIME),
            2 => Ok(set_atime::SET_TO_CLIENT_TIME(nfstime3::deserialize(input)?)),
            _ => Err(XdrError::InvalidEnum),
        }
    }
}

pub open spec fn parse_set_atime(s: Seq<u8>) -> Parsed<set_atime> {
    match parse_u32(s) {
        Err(e) => Err(e),
        Ok((how, s)) => if how == 0 {
            Ok((set_atime::DONT_CHANGE, s))
        } else if how == 1 {
            Ok((set_atime::SET_TO_SERVER_TIME, s))
        } else if how == 2 {
            match parse_nfstime3(s) {
                Err(e) => Err(e),
                Ok((t, s)) => Ok((set_atime::SET_TO_CLIENT_TIME(t), s)),
            }
        } else {
            Err(XdrError::InvalidEnum)
        },
    }
}

/// Reading gives back what was written, and what follows it.
pub broadcast proof fn set_atime_round_trip(u: set_atime, rest: Seq<u8>)
    ensures
        #[trigger] parse_set_atime(u.encoding() + rest) == Ok::<(set_atime, Seq<u8>), XdrError>(
            (u, rest),
        ),
{
    match u {
        set_atime::DONT_CHANGE => {
            u32_round_trip(0, rest);
        },
        set_atime::SET_TO_SERVER_TIME => {
            u32_round_trip(1, rest);
        },
        set_atime::SET_TO_CLIENT_TIME(t) => {
            let behind = t.encoding() + rest;
            assert(u.encoding() + rest =~= xdr_u32(2) + behind);
            u32_round_trip(2, behind);
            nfstime3_round_trip(t, rest);
        },
    }
}

/// How to set the modification time.
#[derive(Clone, Copy, Debug, PartialEq, Eq, Structural)]
pub enum set_mtime {
    DONT_CHANGE,
    SET_TO_SERVER_TIME,
    SET_TO_CLIENT_TIME(nfstime3),
}

impl set_mtime {
    pub open spec fn encoding(self) -> Seq<u8> {
        match self {
            set_mtime::DONT_CHANGE => xdr_u32(0),
            set_mtime::SET_TO_SERVER_TIME => xdr_u32(1),
            set_mtime::SET_TO_CLIENT_TIME(t) => xdr_u32(2) + t.encoding(),
        }
    }

    pub fn serialize(&self, out: &mut Vec<u8>)
        ensures
            final(out)@ == old(out)@ + self.encoding(),
    {
        match self {
            set_mtime::DONT_CHANGE => {
                write_u32(out, 0);
            },
            set_mtime::SET_TO_SERVER_TIME => {
                write_u32(out, 1);
            },
            set_mtime::SET_TO_CLIENT_TIME(t) => {
                write_u32(out, 2);
                t.serialize(out);
                assert(out@ =~= old(out)@ + self.encoding());
            },
        }
    }

    pub fn deserialize(input: &mut Input) -> (r: Result<set_mtime, XdrError>)
        ensures
            reads(parse_set_mtime(old(input)@), r, final(input)@),
    {
        let how: u32 = input.read_u32()?;
        match how {
            0 => Ok(set_mtime::DONT_CHANGE),
            1 => Ok(set_mtime::SET_TO_SERVER_TIME),
            2 => Ok(set_mtime::SET_TO_CLIENT_TIME(nfstime3::deserialize(input)?)),
            _ => Err(XdrError::InvalidEnum),
        }
    }
}

pub open spec fn parse_set_mtime(s: Seq<u8>) -> Parsed<set_mtime> {
    match parse_u32(s) {
        Err(e) => Err(e),
        Ok((how, s)) => if how == 0 {
            Ok((set_mtime::DONT_CHANGE, s))
        } else if how == 1 {
            Ok((set_mtime::SET_TO_SERVER_TIME, s))
        } else if how == 2 {
            match parse_nfstime3(s) {
                Err(e) => Err(e),
                Ok((t, s)) => Ok((set_mtime::SET_TO_CLIENT_TIME(t), s)),
            }
        } else {
            Err(XdrError::InvalidEnum)
        },
    }
}

/// Reading gives back what was written, and what follows it.
pub broadcast proof fn set_mtime_round_trip(u: set_mtime, rest: Seq<u8>)
    ensures
        #[trigger] parse_set_mtime(u.encoding() + rest) == Ok::<(set_mtime, Seq<u8>), XdrError>(
            (u, rest),
        ),
{
    match u {
        set_mtime::DONT_CHANGE => {
            u32_round_trip(0, rest);
        },
        set_mtime::SET_TO_SERVER_TIME => {
            u32_round_trip(1, rest);
        },
        set_mtime::SET_TO_CLIENT_TIME(t) => {
            let behind = t.encoding() + rest;
            assert(u.encoding() + rest =~= xdr_u32(2) + behind);
            u32_round_trip(2, behind);
            nfstime3_round_trip(t, rest);
        },
    }
}

/// The attributes to set on an object.
#[derive(Clone, Copy, Debug, PartialEq, Eq, Structural)]
pub struct sattr3 {
    pub mode: set_mode3,
    pub uid: set_uid3,
    pub gid: set_gid3,
    pub size: set_size3,
    pub atime: set_atime,
    pub mtime: set_mtime,
}

impl sattr3 {
    #[verifier::opaque]
    pub open spec fn encoding(self) -> Seq<u8> {
        self.mode.encoding() + self.uid.encoding() + self.gid.encoding() + self.size.encoding()
            + self.atime.encoding() + self.mtime.encoding()
    }
}

#[verifier::opaque]
pub open spec fn parse_sattr3(s: Seq<u8>) -> Parsed<sattr3> {
    match parse_set_mode3(s) {
        Err(e) => Err(e),
        Ok((mode, s)) => match parse_set_uid3(s) {
                Err(e) => Err(e),
                Ok((uid, s)) => match parse_set_gid3(s) {
                        Err(e) => Err(e),
                        Ok((gid, s)) => match parse_set_size3(s) {
                                Err(e) => Err(e),
                                Ok((size, s)) => match parse_set_atime(s) {
                                        Err(e) => Err(e),
                                        Ok((atime, s)) => match parse_set_mtime(s) {
                                                Err(e) => Err(e),
                                                Ok((mtime, s)) => Ok(
                                                    (
                                                        sattr3 {
                                                            mode,
                                                            uid,
                                                            gid,
                                                            size,
                                                            atime,
                                                            mtime,
                                                        },
                                                        s,
                                                    ),
                                                ),
                                            },
                                    },
                            },
                    },
            },
    }
}

impl sattr3 {
    pub fn serialize(&self, out: &mut Vec<u8>)
        ensures
            final(out)@ == old(out)@ + self.encoding(),
    {
        reveal(sattr3::encoding);
        self.mode.serialize(out);
        self.uid.serialize(out);
        self.gid.serialize(out);
        self.size.serialize(out);
        self.atime.serialize(out);
        self.mtime.serialize(out);
        assert(out@ =~= old(out)@ + self.encoding());
    }

    pub fn deserialize(input: &mut Input) -> (r: Result<sattr3, XdrError>)
        ensures
            reads(parse_sattr3(old(input)@), r, final(input)@),
    {
        reveal(parse_sattr3);
        let mode: set_mode3 = set_mode3::deserialize(input)?;
        let uid: set_uid3 = set_uid3::deserialize(input)?;
        let gid: set_gid3 = set_gid3::deserialize(input)?;
        let size: set_size3 = set_size3::deserialize(input)?;
        let atime: set_atime = set_atime::deserialize(input)?;
        let mtime: set_mtime = set_mtime::deserialize(input)?;
        Ok(sattr3 { mode, uid, gid, size, atime, mtime })
    }
}

/// Reading gives back the arguments that were written, and what follows them.
pub broadcast proof fn sattr3_round_trip(v: sattr3, rest: Seq<u8>)
    ensures
        #[trigger] parse_sattr3(v.encoding() + rest) == Ok::<(sattr3, Seq<u8>), XdrError>(
            (v, rest),
        ),
{
    reveal(sattr3::encoding);
    reveal(parse_sattr3);
    let s6 = rest;
    let s5 = v.mtime.encoding() + s6;
    let s4 = v.atime.encoding() + s5;
    let s3 = v.size.encoding() + s4;
    let s2 = v.gid.encoding() + s3;
    let s1 = v.uid.encoding() + s2;
    concat_assoc(
        v.mode.encoding() + v.uid.encoding() + v.gid.encoding() + v.size.encoding()
            + v.atime.encoding(),
        v.mtime.encoding(),
        s6,
    );
    concat_assoc(
        v.mode.encoding() + v.uid.encoding() + v.gid.encoding() + v.size.encoding(),
        v.atime.encoding(),
        s5,
    );
    concat_assoc(v.mode.encoding() + v.uid.encoding() + v.gid.encoding(), v.size.encoding(), s4);
    concat_assoc(v.mode.encoding() + v.uid.encoding(), v.gid.encoding(), s3);
    concat_assoc(v.mode.encoding(), v.uid.encoding(), s2);
    set_mode3_round_trip(v.mode, s1);
    set_uid3_round_trip(v.uid, s2);
    set_gid3_round_trip(v.gid, s3);
    set_size3_round_trip(v.size, s4);
    set_atime_round_trip(v.atime, s5);
    set_mtime_round_trip(v.mtime, s6);
}

impl Default for sattr3 {
    fn default() -> (r: sattr3)
        ensures
            r == sattr3::nothing(),
    {
        sattr3 {
            mode: set_mode3::Void,
            uid: set_uid3::Void,
            gid: set_gid3::Void,
            size: set_size3::Void,
            atime: set_atime::DONT_CHANGE,
            mtime: set_mtime::DONT_CHANGE,
        }
    }
}

impl sattr3 {
    /// No attribute is to be set.
    pub open spec fn nothing() -> sattr3 {
        sattr3 {
            mode: set_mode3::Void,
            uid: set_uid3::Void,
            gid: set_gid3::Void,
            size: set_size3::Void,
            atime: set_atime::DONT_CHANGE,
            mtime: set_mtime::DONT_CHANGE,
        }
    }
}

/// A name in a directory.
#[derive(Clone, Debug, PartialEq, Eq)]
pub struct diropargs3 {
    pub dir: nfs_fh3,
    pub name: filename3,
}

pub type diropargs3View = (Seq<u8>, Seq<u8>);

impl View for diropargs3 {
    type V = diropargs3View;

    open spec fn view(&self) -> diropargs3View {
        (self.dir@, self.name@)
    }
}

/// Each length fits its place in the encoding.
pub open spec fn diropargs3_fits(v: diropargs3View) -> bool {
    &&& v.0.len() <= u32::MAX
    &&& v.1.len() <= u32::MAX
}

pub open spec fn xdr_diropargs3(v: diropargs3View) -> Seq<u8> {
    xdr_opaque(v.0) + xdr_opaque(v.1)
}

pub open spec fn parse_diropargs3(s: Seq<u8>) -> Parsed<diropargs3View> {
    match parse_opaque(s) {
        Err(e) => Err(e),
        Ok((dir, s)) => match parse_opaque(s) {
                Err(e) => Err(e),
                Ok((name, s)) => Ok(((dir, name), s)),
            },
    }
}

impl diropargs3 {
    pub fn serialize(&self, out: &mut Vec<u8>)
        requires
            diropargs3_fits(self@),
        ensures
            final(out)@ == old(out)@ + xdr_diropargs3(self@),
    {
        self.dir.serialize(out);
        self.name.serialize(out);
        assert(out@ =~= old(out)@ + xdr_diropargs3(self@));
    }

    pub fn deserialize(input: &mut Input) -> (r: Result<diropargs3, XdrError>)
        ensures
            reads_view(parse_diropargs3(old(input)@), r, final(input)@),
    {
        let dir: nfs_fh3 = nfs_fh3::deserialize(input)?;
        let name: filename3 = nfsstring::deserialize(input)?;
        Ok(diropargs3 { dir, name })
    }
}

/// Reading gives back the arguments that were written, and what follows them.
pub broadcast proof fn diropargs3_round_trip(v: diropargs3View, rest: Seq<u8>)
    requires
        diropargs3_fits(v),
    ensures
        #[trigger] parse_diropargs3(xdr_diropargs3(v) + rest) == Ok::<
            (diropargs3View, Seq<u8>),
            XdrError,
        >((v, rest)),
{
    let s2 = rest;
    let s1 = xdr_opaque(v.1) + s2;
    concat_assoc(xdr_opaque(v.0), xdr_opaque(v.1), s2);
    opaque_round_trip(v.0, s1);
    opaque_round_trip(v.1, s2);
}

/// The arguments of READ.
#[derive(Clone, Debug, PartialEq, Eq)]
pub struct READ3args {
    pub file: nfs_fh3,
    pub offset: offset3,
    pub count: count3,
}

pub type READ3argsView = (Seq<u8>, u64, u32);

impl View for READ3args {
    type V = READ3argsView;

    open spec fn view(&self) -> READ3argsView {
        (self.file@, self.offset, self.count)
    }
}

/// Each length fits its place in the encoding.
pub open spec fn READ3args_fits(v: READ3argsView) -> bool {
    &&& v.0.len() <= u32::MAX
}

pub open spec fn xdr_READ3args(v: READ3argsView) -> Seq<u8> {
    xdr_opaque(v.0) + xdr_u64(v.1) + xdr_u32(v.2)
}

pub open spec fn parse_READ3args(s: Seq<u8>) -> Parsed<READ3argsView> {
    match parse_opaque(s) {
        Err(e) => Err(e),
        Ok((file, s)) => match parse_u64(s) {
                Err(e) => Err(e),
                Ok((offset, s)) => match parse_u32(s) {
                        Err(e) => Err(e),
                        Ok((count, s)) => Ok(((file, offset, count), s)),
                    },
            },
    }
}

impl READ3args {
    pub fn serialize(&self, out: &mut Vec<u8>)
        requires
            READ3args_fits(self@),
        ensures
            final(out)@ == old(out)@ + xdr_READ3args(self@),
    {
        self.file.serialize(out);
        write_u64(out, self.offset);
        write_u32(out, self.count);
        assert(out@ =~= old(out)@ + xdr_READ3args(self@));
    }

    pub fn deserialize(input: &mut Input) -> (r: Result<READ3args, XdrError>)
        ensures
            reads_view(parse_READ3args(old(input)@), r, final(input)@),
    {
        let file: nfs_fh3 = nfs_fh3::deserialize(input)?;
        let offset: offset3 = input.read_u64()?;
        let count: count3 = input.read_u32()?;
        Ok(READ3args { file, offset, count })
    }
}

/// Reading gives back the arguments that were written, and what follows them.
pub broadcast proof fn READ3args_round_trip(v: READ3argsView, rest: Seq<u8>)
    requires
        READ3args_fits(v),
    ensures
        #[trigger] parse_READ3args(xdr_READ3args(v) + rest) == Ok::<
            (READ3argsView, Seq<u8>),
            XdrError,
        >((v, rest)),
{
    let s3 = rest;
    let s2 = xdr_u32(v.2) + s3;
    let s1 = xdr_u64(v.1) + s2;
    concat_assoc(xdr_opaque(v.0) + xdr_u64(v.1), xdr_u32(v.2), s3);
    concat_assoc(xdr_opaque(v.0), xdr_u64(v.1), s2);
    opaque_round_trip(v.0, s1);
    u64_round_trip(v.1, s2);
    u32_round_trip(v.2, s3);
}

/// The arguments of WRITE.
#[derive(Clone, Debug, PartialEq, Eq)]
pub struct WRITE3args {
    pub file: nfs_fh3,
    pub offset: offset3,
    pub count: count3,
    pub stable: u32,
    pub data: Vec<u8>,
}

pub type WRITE3argsView = (Seq<u8>, u64, u32, u32, Seq<u8>);

impl View for WRITE3args {
    type V = WRITE3argsView;

    open spec fn view(&self) -> WRITE3argsView {
        (self.file@, self.offset, self.count, self.stable, self.data@)
    }
}

/// Each length fits its place in the encoding.
pub open spec fn WRITE3args_fits(v: WRITE3argsView) -> bool {
    &&& v.0.len() <= u32::MAX
    &&& v.4.len() <= u32::MAX
}

pub open spec fn xdr_WRITE3args(v: WRITE3argsView) -> Seq<u8> {
    xdr_opaque(v.0) + xdr_u64(v.1) + xdr_u32(v.2) + xdr_u32(v.3) + xdr_opaque(v.4)
}

pub open spec fn parse_WRITE3args(s: Seq<u8>) -> Parsed<WRITE3argsView> {
    match parse_opaque(s) {
        Err(e) => Err(e),
        Ok((file, s)) => match parse_u64(s) {
                Err(e) => Err(e),
                Ok((offset, s)) => match parse_u32(s) {
                        Err(e) => Err(e),
                        Ok((count, s)) => match parse_u32(s) {
                                Err(e) => Err(e),
                                Ok((stable, s)) => match parse_opaque(s) {
                                        Err(e) => Err(e),
                                        Ok((data, s)) => Ok(
                                            ((file, offset, count, stable, data), s),
                                        ),
                                    },
                            },
                    },
            },
    }
}

impl WRITE3args {
    pub fn serialize(&self, out: &mut Vec<u8>)
        requires
            WRITE3args_fits(self@),
        ensures
            final(out)@ == old(out)@ + xdr_WRITE3args(self@),
    {
        self.file.serialize(out);
        write_u64(out, self.offset);
        write_u32(out, self.count);
        write_u32(out, self.stable);
        write_opaque(out, &self.data);
        assert(out@ =~= old(out)@ + xdr_WRITE3args(self@));
    }

    pub fn deserialize(input: &mut Input) -> (r: Result<WRITE3args, XdrError>)
        ensures
            reads_view(parse_WRITE3args(old(input)@), r, final(input)@),
    {
        let file: nfs_fh3 = nfs_fh3::deserialize(input)?;
        let offset: offset3 = input.read_u64()?;
        let count: count3 = input.read_u32()?;
        let stable: u32 = input.read_u32()?;
        let data: Vec<u8> = input.read_opaque()?;
        Ok(WRITE3args { file, offset, count, stable, data })
    }
}

/// Reading gives back the arguments that were written, and what follows them.
pub broadcast proof fn WRITE3args_round_trip(v: WRITE3argsView, rest: Seq<u8>)
    requires
        WRITE3args_fits(v),
    ensures
        #[trigger] parse_WRITE3args(xdr_WRITE3args(v) + rest) == Ok::<
            (WRITE3argsView, Seq<u8>),
            XdrError,
        >((v, rest)),
{
    let s5 = rest;
    let s4 = xdr_opaque(v.4) + s5;
    let s3 = xdr_u32(v.3) + s4;
    let s2 = xdr_u32(v.2) + s3;
    let s1 = xdr_u64(v.1) + s2;
    concat_assoc(xdr_opaque(v.0) + xdr_u64(v.1) + xdr_u32(v.2) + xdr_u32(v.3), xdr_opaque(v.4), s5);
    concat_assoc(xdr_opaque(v.0) + xdr_u64(v.1) + xdr_u32(v.2), xdr_u32(v.3), s4);
    concat_assoc(xdr_opaque(v.0) + xdr_u64(v.1), xdr_u32(v.2), s3);
    concat_assoc(xdr_opaque(v.0), xdr_u64(v.1), s2);
    opaque_round_trip(v.0, s1);
    u64_round_trip(v.1, s2);
    u32_round_trip(v.2, s3);
    u32_round_trip(v.3, s4);
    opaque_round_trip(v.4, s5);
}

/// The arguments of COMMIT.
#[derive(Clone, Debug, PartialEq, Eq)]
pub struct COMMIT3args {
    pub file: nfs_fh3,
    pub offset: offset3,
    pub count: count3,
}

pub type COMMIT3argsView = (Seq<u8>, u64, u32);

impl View for COMMIT3args {
    type V = COMMIT3argsView;

    open spec fn view(&self) -> COMMIT3argsView {
        (self.file@, self.offset, self.count)
    }
}

/// Each length fits its place in the encoding.
pub open spec fn COMMIT3args_fits(v: COMMIT3argsView) -> bool {
    &&& v.0.len() <= u32::MAX
}

pub open spec fn xdr_COMMIT3args(v: COMMIT3argsView) -> Seq<u8> {
    xdr_opaque(v.0) + xdr_u64(v.1) + xdr_u32(v.2)
}

pub open spec fn parse_COMMIT3args(s: Seq<u8>) -> Parsed<COMMIT3argsView> {
    match parse_opaque(s) {
        Err(e) => Err(e),
        Ok((file, s)) => match parse_u64(s) {
                Err(e) => Err(e),
                Ok((offset, s)) => match parse_u32(s) {
                        Err(e) => Err(e),
                        Ok((count, s)) => Ok(((file, offset, count), s)),
                    },
            },
    }
}

impl COMMIT3args {
    pub fn serialize(&self, out: &mut Vec<u8>)
        requires
            COMMIT3args_fits(self@),
        ensures
            final(out)@ == old(out)@ + xdr_COMMIT3args(self@),
    {
        self.file.serialize(out);
        write_u64(out, self.offset);
        write_u32(out, self.count);
        assert(out@ =~= old(out)@ + xdr_COMMIT3args(self@));
    }

    pub fn deserialize(input: &mut Input) -> (r: Result<COMMIT3args, XdrError>)
        ensures
            reads_view(parse_COMMIT3args(old(input)@), r, final(input)@),
    {
        let file: nfs_fh3 = nfs_fh3::deserialize(input)?;
        let offset: offset3 = input.read_u64()?;
        let count: count3 = input.read_u32()?;
        Ok(COMMIT3args { file, offset, count })
    }
}

/// Reading gives back the arguments that were written, and what follows them.
pub broadcast proof fn COMMIT3args_round_trip(v: COMMIT3argsView, rest: Seq<u8>)
    requires
        COMMIT3args_fits(v),
    ensures
        #[trigger] parse_COMMIT3args(xdr_COMMIT3args(v) + rest) == Ok::<
            (COMMIT3argsView, Seq<u8>),
            XdrError,
        >((v, rest)),
{
    let s3 = rest;
    let s2 = xdr_u32(v.2) + s3;
    let s1 = xdr_u64(v.1) + s2;
    concat_assoc(xdr_opaque(v.0) + xdr_u64(v.1), xdr_u32(v.2), s3);
    concat_assoc(xdr_opaque(v.0), xdr_u64(v.1), s2);
    opaque_round_trip(v.0, s1);
    u64_round_trip(v.1, s2);
    u32_round_trip(v.2, s3);
}

/// The arguments of READDIR.
#[derive(Clone, Debug, PartialEq, Eq)]
pub struct READDIR3args {
    pub dir: nfs_fh3,
    pub cookie: cookie3,
    pub cookieverf: cookieverf3,
    pub dircount: count3,
}

pub type READDIR3argsView = (Seq<u8>, u64, Seq<u8>, u32);

impl View for READDIR3args {
    type V = READDIR3argsView;

    open spec fn view(&self) -> READDIR3argsView {
        (self.dir@, self.cookie, self.cookieverf@, self.dircount)
    }
}

/// Each length fits its place in the encoding.
pub open spec fn READDIR3args_fits(v: READDIR3argsView) -> bool {
    &&& v.0.len() <= u32::MAX
    &&& v.2.len() == 8
}

pub open spec fn xdr_READDIR3args(v: READDIR3argsView) -> Seq<u8> {
    xdr_opaque(v.0) + xdr_u64(v.1) + v.2 + xdr_u32(v.3)
}

pub open spec fn parse_READDIR3args(s: Seq<u8>) -> Parsed<READDIR3argsView> {
    match parse_opaque(s) {
        Err(e) => Err(e),
        Ok((dir, s)) => match parse_u64(s) {
                Err(e) => Err(e),
                Ok((cookie, s)) => match parse_opaque8(s) {
                        Err(e) => Err(e),
                        Ok((cookieverf, s)) => match parse_u32(s) {
                                Err(e) => Err(e),
                                Ok((dircount, s)) => Ok(((dir, cookie, cookieverf, dircount), s)),
                            },
                    },
            },
    }
}

impl READDIR3args {
    pub fn serialize(&self, out: &mut Vec<u8>)
        requires
            READDIR3args_fits(self@),
        ensures
            final(out)@ == old(out)@ + xdr_READDIR3args(self@),
    {
        self.dir.serialize(out);
        write_u64(out, self.cookie);
        write_bytes(out, self.cookieverf.as_slice());
        write_u32(out, self.dircount);
        assert(out@ =~= old(out)@ + xdr_READDIR3args(self@));
    }

    pub fn deserialize(input: &mut Input) -> (r: Result<READDIR3args, XdrError>)
        ensures
            reads_view(parse_READDIR3args(old(input)@), r, final(input)@),
    {
        let dir: nfs_fh3 = nfs_fh3::deserialize(input)?;
        let cookie: cookie3 = input.read_u64()?;
        let cookieverf: cookieverf3 = input.read_opaque8()?;
        let dircount: count3 = input.read_u32()?;
        Ok(READDIR3args { dir, cookie, cookieverf, dircount })
    }
}

/// Reading gives back the arguments that were written, and what follows them.
pub broadcast proof fn READDIR3args_round_trip(v: READDIR3argsView, rest: Seq<u8>)
    requires
        READDIR3args_fits(v),
    ensures
        #[trigger] parse_READDIR3args(xdr_READDIR3args(v) + rest) == Ok::<
            (READDIR3argsView, Seq<u8>),
            XdrError,
        >((v, rest)),
{
    let s4 = rest;
    let s3 = xdr_u32(v.3) + s4;
    let s2 = v.2 + s3;
    let s1 = xdr_u64(v.1) + s2;
    concat_assoc(xdr_opaque(v.0) + xdr_u64(v.1) + v.2, xdr_u32(v.3), s4);
    concat_assoc(xdr_opaque(v.0) + xdr_u64(v.1), v.2, s3);
    concat_assoc(xdr_opaque(v.0), xdr_u64(v.1), s2);
    opaque_round_trip(v.0, s1);
    u64_round_trip(v.1, s2);
    opaque8_round_trip(v.2, s3);
    u32_round_trip(v.3, s4);
}

/// The arguments of READDIRPLUS.
#[derive(Clone, Debug, PartialEq, Eq)]
pub struct READDIRPLUS3args {
    pub dir: nfs_fh3,
    pub cookie: cookie3,
    pub cookieverf: cookieverf3,
    pub dircount: count3,
    pub maxcount: count3,
}

pub type READDIRPLUS3argsView = (Seq<u8>, u64, Seq<u8>, u32, u32);

impl View for READDIRPLUS3args {
    type V = READDIRPLUS3argsView;

    open spec fn view(&self) -> READDIRPLUS3argsView {
        (self.dir@, self.cookie, self.cookieverf@, self.dircount, self.maxcount)
    }
}

/// Each length fits its place in the encoding.
pub open spec fn READDIRPLUS3args_fits(v: READDIRPLUS3argsView) -> bool {
    &&& v.0.len() <= u32::MAX
    &&& v.2.len() == 8
}

pub open spec fn xdr_READDIRPLUS3args(v: READDIRPLUS3argsView) -> Seq<u8> {
    xdr_opaque(v.0) + xdr_u64(v.1) + v.2 + xdr_u32(v.3) + xdr_u32(v.4)
}

pub open spec fn parse_READDIRPLUS3args(s: Seq<u8>) -> Parsed<READDIRPLUS3argsView> {
    match parse_opaque(s) {
        Err(e) => Err(e),
        Ok((dir, s)) => match parse_u64(s) {
                Err(e) => Err(e),
                Ok((cookie, s)) => match parse_opaque8(s) {
                        Err(e) => Err(e),
                        Ok((cookieverf, s)) => match parse_u32(s) {
                                Err(e) => Err(e),
                                Ok((dircount, s)) => match parse_u32(s) {
                                        Err(e) => Err(e),
                                        Ok((maxcount, s)) => Ok(
                                            ((dir, cookie, cookieverf, dircount, maxcount), s),
                                        ),
                                    },
                            },
                    },
            },
    }
}

impl READDIRPLUS3args {
    pub fn serialize(&self, out: &mut Vec<u8>)
        requires
            READDIRPLUS3args_fits(self@),
        ensures
            final(out)@ == old(out)@ + xdr_READDIRPLUS3args(self@),
    {
        self.dir.serialize(out);
        write_u64(out, self.cookie);
        write_bytes(out, self.cookieverf.as_slice());
        write_u32(out, self.dircount);
        write_u32(out, self.maxcount);
        assert(out@ =~= old(out)@ + xdr_READDIRPLUS3args(self@));
    }

    pub fn deserialize(input: &mut Input) -> (r: Result<READDIRPLUS3args, XdrError>)
        ensures
            reads_view(parse_READDIRPLUS3args(old(input)@), r, final(input)@),
    {
        let dir: nfs_fh3 = nfs_fh3::deserialize(input)?;
        let cookie: cookie3 = input.read_u64()?;
        let cookieverf: cookieverf3 = input.read_opaque8()?;
        let dircount: count3 = input.read_u32()?;
        let maxcount: count3 = input.read_u32()?;
        Ok(READDIRPLUS3args { dir, cookie, cookieverf, dircount, maxcount })
    }
}

/// Reading gives back the arguments that were written, and what follows them.
pub broadcast proof fn READDIRPLUS3args_round_trip(v: READDIRPLUS3argsView, rest: Seq<u8>)
    requires
        READDIRPLUS3args_fits(v),
    ensures
        #[trigger] parse_READDIRPLUS3args(xdr_READDIRPLUS3args(v) + rest) == Ok::<
            (READDIRPLUS3argsView, Seq<u8>),
            XdrError,
        >((v, rest)),
{
    let s5 = rest;
    let s4 = xdr_u32(v.4) + s5;
    let s3 = xdr_u32(v.3) + s4;
    let s2 = v.2 + s3;
    let s1 = xdr_u64(v.1) + s2;
    concat_assoc(xdr_opaque(v.0) + xdr_u64(v.1) + v.2 + xdr_u32(v.3), xdr_u32(v.4), s5);
    concat_assoc(xdr_opaque(v.0) + xdr_u64(v.1) + v.2, xdr_u32(v.3), s4);
    concat_assoc(xdr_opaque(v.0) + xdr_u64(v.1), v.2, s3);
    concat_assoc(xdr_opaque(v.0), xdr_u64(v.1), s2);
    opaque_round_trip(v.0, s1);
    u64_round_trip(v.1, s2);
    opaque8_round_trip(v.2, s3);
    u32_round_trip(v.3, s4);
    u32_round_trip(v.4, s5);
}

/// The arguments of SETATTR.
#[derive(Clone, Debug, PartialEq, Eq)]
pub struct SETATTR3args {
    pub object: nfs_fh3,
    pub new_attribute: sattr3,
    pub guard: sattrguard3,
}

pub type SETATTR3argsView = (Seq<u8>, sattr3, sattrguard3);

impl View for SETATTR3args {
    type V = SETATTR3argsView;

    open spec fn view(&self) -> SETATTR3argsView {
        (self.object@, self.new_attribute, self.guard)
    }
}

/// Each length fits its place in the encoding.
pub open spec fn SETATTR3args_fits(v: SETATTR3argsView) -> bool {
    &&& v.0.len() <= u32::MAX
}

pub open spec fn xdr_SETATTR3args(v: SETATTR3argsView) -> Seq<u8> {
    xdr_opaque(v.0) + v.1.encoding() + v.2.encoding()
}

pub open spec fn parse_SETATTR3args(s: Seq<u8>) -> Parsed<SETATTR3argsView> {
    match parse_opaque(s) {
        Err(e) => Err(e),
        Ok((object, s)) => match parse_sattr3(s) {
                Err(e) => Err(e),
                Ok((new_attribute, s)) => match parse_sattrguard3(s) {
                        Err(e) => Err(e),
                        Ok((guard, s)) => Ok(((object, new_attribute, guard), s)),
                    },
            },
    }
}

impl SETATTR3args {
    pub fn serialize(&self, out: &mut Vec<u8>)
        requires
            SETATTR3args_fits(self@),
        ensures
            final(out)@ == old(out)@ + xdr_SETATTR3args(self@),
    {
        self.object.serialize(out);
        self.new_attribute.serialize(out);
        self.guard.serialize(out);
        assert(out@ =~= old(out)@ + xdr_SETATTR3args(self@));
    }

    pub fn deserialize(input: &mut Input) -> (r: Result<SETATTR3args, XdrError>)
        ensures
            reads_view(parse_SETATTR3args(old(input)@), r, final(input)@),
    {
        let object: nfs_fh3 = nfs_fh3::deserialize(input)?;
        let new_attribute: sattr3 = sattr3::deserialize(input)?;
        let guard: sattrguard3 = sattrguard3::deserialize(input)?;
        Ok(SETATTR3args { object, new_attribute, guard })
    }
}

/// Reading gives back the arguments that were written, and what follows them.
pub broadcast proof fn SETATTR3args_round_trip(v: SETATTR3argsView, rest: Seq<u8>)
    requires
        SETATTR3args_fits(v),
    ensures
        #[trigger] parse_SETATTR3args(xdr_SETATTR3args(v) + rest) == Ok::<
            (SETATTR3argsView, Seq<u8>),
            XdrError,
        >((v, rest)),
{
    let s3 = rest;
    let s2 = v.2.encoding() + s3;
    let s1 = v.1.encoding() + s2;
    concat_assoc(xdr_opaque(v.0) + v.1.encoding(), v.2.encoding(), s3);
    concat_assoc(xdr_opaque(v.0), v.1.encoding(), s2);
    opaque_round_trip(v.0, s1);
    sattr3_round_trip(v.1, s2);
    sattrguard3_round_trip(v.2, s3);
}

/// The arguments of RENAME.
#[derive(Clone, Debug, PartialEq, Eq)]
pub struct RENAME3args {
    pub from: diropargs3,
    pub to: diropargs3,
}

pub type RENAME3argsView = (diropargs3View, diropargs3View);

impl View for RENAME3args {
    type V = RENAME3argsView;

    open spec fn view(&self) -> RENAME3argsView {
        (self.from@, self.to@)
    }
}

/// Each length fits its place in the encoding.
pub open spec fn RENAME3args_fits(v: RENAME3argsView) -> bool {
    &&& diropargs3_fits(v.0)
    &&& diropargs3_fits(v.1)
}

pub open spec fn xdr_RENAME3args(v: RENAME3argsView) -> Seq<u8> {
    xdr_diropargs3(v.0) + xdr_diropargs3(v.1)
}

pub open spec fn parse_RENAME3args(s: Seq<u8>) -> Parsed<RENAME3argsView> {
    match parse_diropargs3(s) {
        Err(e) => Err(e),
        Ok((from, s)) => match parse_diropargs3(s) {
                Err(e) => Err(e),
                Ok((to, s)) => Ok(((from, to), s)),
            },
    }
}

impl RENAME3args {
    pub fn serialize(&self, out: &mut Vec<u8>)
        requires
            RENAME3args_fits(self@),
        ensures
            final(out)@ == old(out)@ + xdr_RENAME3args(self@),
    {
        self.from.serialize(out);
        self.to.serialize(out);
        assert(out@ =~= old(out)@ + xdr_RENAME3args(self@));
    }

    pub fn deserialize(input: &mut Input) -> (r: Result<RENAME3args, XdrError>)
        ensures
            reads_view(parse_RENAME3args(old(input)@), r, final(input)@),
    {
        let from: diropargs3 = diropargs3::deserialize(input)?;
        let to: diropargs3 = diropargs3::deserialize(input)?;
        Ok(RENAME3args { from, to })
    }
}

/// Reading gives back the arguments that were written, and what follows them.
pub broadcast proof fn RENAME3args_round_trip(v: RENAME3argsView, rest: Seq<u8>)
    requires
        RENAME3args_fits(v),
    ensures
        #[trigger] parse_RENAME3args(xdr_RENAME3args(v) + rest) == Ok::<
            (RENAME3argsView, Seq<u8>),
            XdrError,
        >((v, rest)),
{
    let s2 = rest;
    let s1 = xdr_diropargs3(v.1) + s2;
    concat_assoc(xdr_diropargs3(v.0), xdr_diropargs3(v.1), s2);
    diropargs3_round_trip(v.0, s1);
    diropargs3_round_trip(v.1, s2);
}

/// The arguments of MKDIR.
#[derive(Clone, Debug, PartialEq, Eq)]
pub struct MKDIR3args {
    pub dirops: diropargs3,
    pub attributes: sattr3,
}

pub type MKDIR3argsView = (diropargs3View, sattr3);

impl View for MKDIR3args {
    type V = MKDIR3argsView;

    open spec fn view(&self) -> MKDIR3argsView {
        (self.dirops@, self.attributes)
    }
}

/// Each length fits its place in the encoding.
pub open spec fn MKDIR3args_fits(v: MKDIR3argsView) -> bool {
    &&& diropargs3_fits(v.0)
}

pub open spec fn xdr_MKDIR3args(v: MKDIR3argsView) -> Seq<u8> {
    xdr_diropargs3(v.0) + v.1.encoding()
}

pub open spec fn parse_MKDIR3args(s: Seq<u8>) -> Parsed<MKDIR3argsView> {
    match parse_diropargs3(s) {
        Err(e) => Err(e),
        Ok((dirops, s)) => match parse_sattr3(s) {
                Err(e) => Err(e),
                Ok((attributes, s)) => Ok(((dirops, attributes), s)),
            },
    }
}

impl MKDIR3args {
    pub fn serialize(&self, out: &mut Vec<u8>)
        requires
            MKDIR3args_fits(self@),
        ensures
            final(out)@ == old(out)@ + xdr_MKDIR3args(self@),
    {
        self.dirops.serialize(out);
        self.attributes.serialize(out);
        assert(out@ =~= old(out)@ + xdr_MKDIR3args(self@));
    }

    pub fn deserialize(input: &mut Input) -> (r: Result<MKDIR3args, XdrError>)
        ensures
            reads_view(parse_MKDIR3args(old(input)@), r, final(input)@),
    {
        let dirops: diropargs3 = diropargs3::deserialize(input)?;
        let attributes: sattr3 = sattr3::deserialize(input)?;
        Ok(MKDIR3args { dirops, attributes })
    }
}

/// Reading gives back the arguments that were written, and what follows them.
pub broadcast proof fn MKDIR3args_round_trip(v: MKDIR3argsView, rest: Seq<u8>)
    requires
        MKDIR3args_fits(v),
    ensures
        #[trigger] parse_MKDIR3args(xdr_MKDIR3args(v) + rest) == Ok::<
            (MKDIR3argsView, Seq<u8>),
            XdrError,
        >((v, rest)),
{
    let s2 = rest;
    let s1 = v.1.encoding() + s2;
    concat_assoc(xdr_diropargs3(v.0), v.1.encoding(), s2);
    diropargs3_round_trip(v.0, s1);
    sattr3_round_trip(v.1, s2);
}

/// The attributes and the target of a symbolic link.
#[derive(Clone, Debug, PartialEq, Eq)]
pub struct symlinkdata3 {
    pub symlink_attributes: sattr3,
    pub symlink_data: nfspath3,
}

pub type symlinkdata3View = (sattr3, Seq<u8>);

impl View for symlinkdata3 {
    type V = symlinkdata3View;

    open spec fn view(&self) -> symlinkdata3View {
        (self.symlink_attributes, self.symlink_data@)
    }
}

/// Each length fits its place in the encoding.
pub open spec fn symlinkdata3_fits(v: symlinkdata3View) -> bool {
    &&& v.1.len() <= u32::MAX
}

pub open spec fn xdr_symlinkdata3(v: symlinkdata3View) -> Seq<u8> {
    v.0.encoding() + xdr_opaque(v.1)
}

pub open spec fn parse_symlinkdata3(s: Seq<u8>) -> Parsed<symlinkdata3View> {
    match parse_sattr3(s) {
        Err(e) => Err(e),
        Ok((symlink_attributes, s)) => match parse_opaque(s) {
                Err(e) => Err(e),
                Ok((symlink_data, s)) => Ok(((symlink_attributes, symlink_data), s)),
            },
    }
}

impl symlinkdata3 {
    pub fn serialize(&self, out: &mut Vec<u8>)
        requires
            symlinkdata3_fits(self@),
        ensures
            final(out)@ == old(out)@ + xdr_symlinkdata3(self@),
    {
        self.symlink_attributes.serialize(out);
        self.symlink_data.serialize(out);
        assert(out@ =~= old(out)@ + xdr_symlinkdata3(self@));
    }

    pub fn deserialize(input: &mut Input) -> (r: Result<symlinkdata3, XdrError>)
        ensures
            reads_view(parse_symlinkdata3(old(input)@), r, final(input)@),
    {
        let symlink_attributes: sattr3 = sattr3::deserialize(input)?;
        let symlink_data: nfspath3 = nfsstring::deserialize(input)?;
        Ok(symlinkdata3 { symlink_attributes, symlink_data })
    }
}

/// Reading gives back the arguments that were written, and what follows them.
pub broadcast proof fn symlinkdata3_round_trip(v: symlinkdata3View, rest: Seq<u8>)
    requires
        symlinkdata3_fits(v),
    ensures
        #[trigger] parse_symlinkdata3(xdr_symlinkdata3(v) + rest) == Ok::<
            (symlinkdata3View, Seq<u8>),
            XdrError,
        >((v, rest)),
{
    let s2 = rest;
    let s1 = xdr_opaque(v.1) + s2;
    concat_assoc(v.0.encoding(), xdr_opaque(v.1), s2);
    sattr3_round_trip(v.0, s1);
    opaque_round_trip(v.1, s2);
}

/// The arguments of SYMLINK.
#[derive(Clone, Debug, PartialEq, Eq)]
pub struct SYMLINK3args {
    pub dirops: diropargs3,
    pub symlink: symlinkdata3,
}

pub type SYMLINK3argsView = (diropargs3View, symlinkdata3View);

impl View for SYMLINK3args {
    type V = SYMLINK3argsView;

    open spec fn view(&self) -> SYMLINK3argsView {
        (self.dirops@, self.symlink@)
    }
}

/// Each length fits its place in the encoding.
pub open spec fn SYMLINK3args_fits(v: SYMLINK3argsView) -> bool {
    &&& diropargs3_fits(v.0)
    &&& symlinkdata3_fits(v.1)
}

pub open spec fn xdr_SYMLINK3args(v: SYMLINK3argsView) -> Seq<u8> {
    xdr_diropargs3(v.0) + xdr_symlinkdata3(v.1)
}

pub open spec fn parse_SYMLINK3args(s: Seq<u8>) -> Parsed<SYMLINK3argsView> {
    match parse_diropargs3(s) {
        Err(e) => Err(e),
        Ok((dirops, s)) => match parse_symlinkdata3(s) {
                Err(e) => Err(e),
                Ok((symlink, s)) => Ok(((dirops, symlink), s)),
            },
    }
}

impl SYMLINK3args {
    pub fn serialize(&self, out: &mut Vec<u8>)
        requires
            SYMLINK3args_fits(self@),
        ensures
            final(out)@ == old(out)@ + xdr_SYMLINK3args(self@),
    {
        self.dirops.serialize(out);
        self.symlink.serialize(out);
        assert(out@ =~= old(out)@ + xdr_SYMLINK3args(self@));
    }

    pub fn deserialize(input: &mut Input) -> (r: Result<SYMLINK3args, XdrError>)
        ensures
            reads_view(parse_SYMLINK3args(old(input)@), r, final(input)@),
    {
        let dirops: diropargs3 = diropargs3::deserialize(input)?;
        let symlink: symlinkdata3 = symlinkdata3::deserialize(input)?;
        Ok(SYMLINK3args { dirops, symlink })
    }
}

/// Reading gives back the arguments that were written, and what follows them.
pub broadcast proof fn SYMLINK3args_round_trip(v: SYMLINK3argsView, rest: Seq<u8>)
    requires
        SYMLINK3args_fits(v),
    ensures
        #[trigger] parse_SYMLINK3args(xdr_SYMLINK3args(v) + rest) == Ok::<
            (SYMLINK3argsView, Seq<u8>),
            XdrError,
        >((v, rest)),
{
    let s2 = rest;
    let s1 = xdr_symlinkdata3(v.1) + s2;
    concat_assoc(xdr_diropargs3(v.0), xdr_symlinkdata3(v.1), s2);
    diropargs3_round_trip(v.0, s1);
    symlinkdata3_round_trip(v.1, s2);
}

/// The arguments of LINK.
#[derive(Clone, Debug, PartialEq, Eq)]
pub struct LINK3args {
    pub file: nfs_fh3,
    pub link: diropargs3,
}

pub type LINK3argsView = (Seq<u8>, diropargs3View);

impl View for LINK3args {
    type V = LINK3argsView;

    open spec fn view(&self) -> LINK3argsView {
        (self.file@, self.link@)
    }
}

/// Each length fits its place in the encoding.
pub open spec fn LINK3args_fits(v: LINK3argsView) -> bool {
    &&& v.0.len() <= u32::MAX
    &&& diropargs3_fits(v.1)
}

pub open spec fn xdr_LINK3args(v: LINK3argsView) -> Seq<u8> {
    xdr_opaque(v.0) + xdr_diropargs3(v.1)
}

pub open spec fn parse_LINK3args(s: Seq<u8>) -> Parsed<LINK3argsView> {
    match parse_opaque(s) {
        Err(e) => Err(e),
        Ok((file, s)) => match parse_diropargs3(s) {
                Err(e) => Err(e),
                Ok((link, s)) => Ok(((file, link), s)),
            },
    }
}

impl LINK3args {
    pub fn serialize(&self, out: &mut Vec<u8>)
        requires
            LINK3args_fits(self@),
        ensures
            final(out)@ == old(out)@ + xdr_LINK3args(self@),
    {
        self.file.serialize(out);
        self.link.serialize(out);
        assert(out@ =~= old(out)@ + xdr_LINK3args(self@));
    }

    pub fn deserialize(input: &mut Input) -> (r: Result<LINK3args, XdrError>)
        ensures
            reads_view(parse_LINK3args(old(input)@), r, final(input)@),
    {
        let file: nfs_fh3 = nfs_fh3::deserialize(input)?;
        let link: diropargs3 = diropargs3::deserialize(input)?;
        Ok(LINK3args { file, link })
    }
}

/// Reading gives back the arguments that were written, and what follows them.
pub broadcast proof fn LINK3args_round_trip(v: LINK3argsView, rest: Seq<u8>)
    requires
        LINK3args_fits(v),
    ensures
        #[trigger] parse_LINK3args(xdr_LINK3args(v) + rest) == Ok::<
            (LINK3argsView, Seq<u8>),
            XdrError,
        >((v, rest)),
{
    let s2 = rest;
    let s1 = xdr_diropargs3(v.1) + s2;
    concat_assoc(xdr_opaque(v.0), xdr_diropargs3(v.1), s2);
    opaque_round_trip(v.0, s1);
    diropargs3_round_trip(v.1, s2);
}

/// The attributes and the numbers of a device.
#[derive(Clone, Copy, Debug, PartialEq, Eq, Structural)]
pub struct devicedata3 {
    pub dev_attributes: sattr3,
    pub spec: specdata3,
}

impl devicedata3 {
    pub open spec fn encoding(self) -> Seq<u8> {
        self.dev_attributes.encoding() + self.spec.encoding()
    }
}

pub open spec fn parse_devicedata3(s: Seq<u8>) -> Parsed<devicedata3> {
    match parse_sattr3(s) {
        Err(e) => Err(e),
        Ok((dev_attributes, s)) => match parse_specdata3(s) {
                Err(e) => Err(e),
                Ok((spec, s)) => Ok((devicedata3 { dev_attributes, spec }, s)),
            },
    }
}

impl devicedata3 {
    pub fn serialize(&self, out: &mut Vec<u8>)
        ensures
            final(out)@ == old(out)@ + self.encoding(),
    {
        self.dev_attributes.serialize(out);
        self.spec.serialize(out);
        assert(out@ =~= old(out)@ + self.encoding());
    }

    pub fn deserialize(input: &mut Input) -> (r: Result<devicedata3, XdrError>)
        ensures
            reads(parse_devicedata3(old(input)@), r, final(input)@),
    {
        let dev_attributes: sattr3 = sattr3::deserialize(input)?;
        let spec: specdata3 = specdata3::deserialize(input)?;
        Ok(devicedata3 { dev_attributes, spec })
    }
}

/// Reading gives back the arguments that were written, and what follows them.
pub broadcast proof fn devicedata3_round_trip(v: devicedata3, rest: Seq<u8>)
    ensures
        #[trigger] parse_devicedata3(v.encoding() + rest) == Ok::<(devicedata3, Seq<u8>), XdrError>(
            (v, rest),
        ),
{
    let s2 = rest;
    let s1 = v.spec.encoding() + s2;
    concat_assoc(v.dev_attributes.encoding(), v.spec.encoding(), s2);
    sattr3_round_trip(v.dev_attributes, s1);
    specdata3_round_trip(v.spec, s2);
}

/// What MKNOD is to make.
#[derive(Clone, Copy, Debug, PartialEq, Eq, Structural)]
pub enum mknoddata3 {
    NF3REG,
    NF3DIR,
    NF3BLK(devicedata3),
    NF3CHR(devicedata3),
    NF3LNK,
    NF3SOCK(sattr3),
    NF3FIFO(sattr3),
}

impl mknoddata3 {
    /// What makes a special file: its type, its attributes and, for a device, its
    /// numbers. The other types cannot be made in this way.
    pub open spec fn special(self) -> Option<(ftype3, sattr3, Option<specdata3>)> {
        match self {
            mknoddata3::NF3CHR(d) => Some((ftype3::NF3CHR, d.dev_attributes, Some(d.spec))),
            mknoddata3::NF3BLK(d) => Some((ftype3::NF3BLK, d.dev_attributes, Some(d.spec))),
            mknoddata3::NF3SOCK(a) => Some((ftype3::NF3SOCK, a, None)),
            mknoddata3::NF3FIFO(a) => Some((ftype3::NF3FIFO, a, None)),
            _ => None,
        }
    }

    pub fn to_special(&self) -> (r: Option<(ftype3, sattr3, Option<specdata3>)>)
        ensures
            r == self.special(),
    {
        match self {
            mknoddata3::NF3CHR(d) => Some((ftype3::NF3CHR, d.dev_attributes, Some(d.spec))),
            mknoddata3::NF3BLK(d) => Some((ftype3::NF3BLK, d.dev_attributes, Some(d.spec))),
            mknoddata3::NF3SOCK(a) => Some((ftype3::NF3SOCK, *a, None)),
            mknoddata3::NF3FIFO(a) => Some((ftype3::NF3FIFO, *a, None)),
            _ => None,
        }
    }

    pub open spec fn ftype(self) -> ftype3 {
        match self {
            mknoddata3::NF3REG => ftype3::NF3REG,
            mknoddata3::NF3DIR => ftype3::NF3DIR,
            mknoddata3::NF3BLK(_) => ftype3::NF3BLK,
            mknoddata3::NF3CHR(_) => ftype3::NF3CHR,
            mknoddata3::NF3LNK => ftype3::NF3LNK,
            mknoddata3::NF3SOCK(_) => ftype3::NF3SOCK,
            mknoddata3::NF3FIFO(_) => ftype3::NF3FIFO,
        }
    }

    pub open spec fn encoding(self) -> Seq<u8> {
        xdr_u32(self.ftype().number()) + match self {
            mknoddata3::NF3BLK(d) => d.encoding(),
            mknoddata3::NF3CHR(d) => d.encoding(),
            mknoddata3::NF3SOCK(a) => a.encoding(),
            mknoddata3::NF3FIFO(a) => a.encoding(),
            _ => Seq::<u8>::empty(),
        }
    }

    pub fn serialize(&self, out: &mut Vec<u8>)
        ensures
            final(out)@ == old(out)@ + self.encoding(),
    {
        match self {
            mknoddata3::NF3REG => {
                write_u32(out, 1);
            },
            mknoddata3::NF3DIR => {
                write_u32(out, 2);
            },
            mknoddata3::NF3BLK(d) => {
                write_u32(out, 3);
                d.serialize(out);
            },
            mknoddata3::NF3CHR(d) => {
                write_u32(out, 4);
                d.serialize(out);
            },
            mknoddata3::NF3LNK => {
                write_u32(out, 5);
            },
            mknoddata3::NF3SOCK(a) => {
                write_u32(out, 6);
                a.serialize(out);
            },
            mknoddata3::NF3FIFO(a) => {
                write_u32(out, 7);
                a.serialize(out);
            },
        }
        assert(out@ =~= old(out)@ + self.encoding());
    }

    pub fn deserialize(input: &mut Input) -> (r: Result<mknoddata3, XdrError>)
        ensures
            reads(parse_mknoddata3(old(input)@), r, final(input)@),
    {
        let n: u32 = input.read_u32()?;
        match ftype3::from_u32(n) {
            None => Err(XdrError::InvalidEnum),
            Some(ftype3::NF3REG) => Ok(mknoddata3::NF3REG),
            Some(ftype3::NF3DIR) => Ok(mknoddata3::NF3DIR),
            Some(ftype3::NF3BLK) => Ok(mknoddata3::NF3BLK(devicedata3::deserialize(input)?)),
            Some(ftype3::NF3CHR) => Ok(mknoddata3::NF3CHR(devicedata3::deserialize(input)?)),
            Some(ftype3::NF3LNK) => Ok(mknoddata3::NF3LNK),
            Some(ftype3::NF3SOCK) => Ok(mknoddata3::NF3SOCK(sattr3::deserialize(input)?)),
            Some(ftype3::NF3FIFO) => Ok(mknoddata3::NF3FIFO(sattr3::deserialize(input)?)),
        }
    }
}

pub open spec fn parse_mknoddata3(s: Seq<u8>) -> Parsed<mknoddata3> {
    match parse_u32(s) {
        Err(e) => Err(e),
        Ok((n, s)) => match ftype3::of_number(n) {
            None => Err(XdrError::InvalidEnum),
            Some(ftype3::NF3REG) => Ok((mknoddata3::NF3REG, s)),
            Some(ftype3::NF3DIR) => Ok((mknoddata3::NF3DIR, s)),
            Some(ftype3::NF3BLK) => match parse_devicedata3(s) {
                Err(e) => Err(e),
                Ok((d, s)) => Ok((mknoddata3::NF3BLK(d), s)),
            },
            Some(ftype3::NF3CHR) => match parse_devicedata3(s) {
                Err(e) => Err(e),
                Ok((d, s)) => Ok((mknoddata3::NF3CHR(d), s)),
            },
            Some(ftype3::NF3LNK) => Ok((mknoddata3::NF3LNK, s)),
            Some(ftype3::NF3SOCK) => match parse_sattr3(s) {
                Err(e) => Err(e),
                Ok((a, s)) => Ok((mknoddata3::NF3SOCK(a), s)),
            },
            Some(ftype3::NF3FIFO) => match parse_sattr3(s) {
                Err(e) => Err(e),
                Ok((a, s)) => Ok((mknoddata3::NF3FIFO(a), s)),
            },
        },
    }
}

/// Reading gives back what was written, and what follows it.
pub broadcast proof fn mknoddata3_round_trip(u: mknoddata3, rest: Seq<u8>)
    ensures
        #[trigger] parse_mknoddata3(u.encoding() + rest) == Ok::<(mknoddata3, Seq<u8>), XdrError>(
            (u, rest),
        ),
{
    let n = u.ftype().number();
    match u {
        mknoddata3::NF3BLK(d) | mknoddata3::NF3CHR(d) => {
            concat_assoc(xdr_u32(n), d.encoding(), rest);
            u32_round_trip(n, d.encoding() + rest);
            devicedata3_round_trip(d, rest);
        },
        mknoddata3::NF3SOCK(a) | mknoddata3::NF3FIFO(a) => {
            concat_assoc(xdr_u32(n), a.encoding(), rest);
            u32_round_trip(n, a.encoding() + rest);
            sattr3_round_trip(a, rest);
        },
        _ => {
            concat_assoc(xdr_u32(n), Seq::<u8>::empty(), rest);
            assert(Seq::<u8>::empty() + rest =~= rest);
            u32_round_trip(n, rest);
        },
    }
}

/// The arguments of MKNOD.
#[derive(Clone, Debug, PartialEq, Eq)]
pub struct MKNOD3args {
    pub where_: diropargs3,
    pub what: mknoddata3,
}

pub type MKNOD3argsView = (diropargs3View, mknoddata3);

impl View for MKNOD3args {
    type V = MKNOD3argsView;

    open spec fn view(&self) -> MKNOD3argsView {
        (self.where_@, self.what)
    }
}

/// Each length fits its place in the encoding.
pub open spec fn MKNOD3args_fits(v: MKNOD3argsView) -> bool {
    &&& diropargs3_fits(v.0)
}

pub open spec fn xdr_MKNOD3args(v: MKNOD3argsView) -> Seq<u8> {
    xdr_diropargs3(v.0) + v.1.encoding()
}

pub open spec fn parse_MKNOD3args(s: Seq<u8>) -> Parsed<MKNOD3argsView> {
    match parse_diropargs3(s) {
        Err(e) => Err(e),
        Ok((where_, s)) => match parse_mknoddata3(s) {
                Err(e) => Err(e),
                Ok((what, s)) => Ok(((where_, what), s)),
            },
    }
}

impl MKNOD3args {
    pub fn serialize(&self, out: &mut Vec<u8>)
        requires
            MKNOD3args_fits(self@),
        ensures
            final(out)@ == old(out)@ + xdr_MKNOD3args(self@),
    {
        self.where_.serialize(out);
        self.what.serialize(out);
        assert(out@ =~= old(out)@ + xdr_MKNOD3args(self@));
    }

    pub fn deserialize(input: &mut Input) -> (r: Result<MKNOD3args, XdrError>)
        ensures
            reads_view(parse_MKNOD3args(old(input)@), r, final(input)@),
    {
        let where_: diropargs3 = diropargs3::deserialize(input)?;
        let what: mknoddata3 = mknoddata3::deserialize(input)?;
        Ok(MKNOD3args { where_, what })
    }
}

/// Reading gives back the arguments that were written, and what follows them.
pub broadcast proof fn MKNOD3args_round_trip(v: MKNOD3argsView, rest: Seq<u8>)
    requires
        MKNOD3args_fits(v),
    ensures
        #[trigger] parse_MKNOD3args(xdr_MKNOD3args(v) + rest) == Ok::<
            (MKNOD3argsView, Seq<u8>),
            XdrError,
        >((v, rest)),
{
    let s2 = rest;
    let s1 = v.1.encoding() + s2;
    concat_assoc(xdr_diropargs3(v.0), v.1.encoding(), s2);
    diropargs3_round_trip(v.0, s1);
    mknoddata3_round_trip(v.1, s2);
}

/// How CREATE treats a name that is taken.
#[derive(Clone, Copy, Debug, PartialEq, Eq, Structural)]
pub enum createmode3 {
    /// The file is made, or reset if it exists.
    UNCHECKED,
    /// The file must not exist.
    GUARDED,
    /// The file must not exist, and making it twice with one verifier is one making.
    EXCLUSIVE,
}

impl Default for createmode3 {
    fn default() -> (r: createmode3)
        ensures
            r == createmode3::UNCHECKED,
    {
        createmode3::UNCHECKED
    }
}

impl createmode3 {
    pub open spec fn number(self) -> u32 {
        match self {
            createmode3::UNCHECKED => 0,
            createmode3::GUARDED => 1,
            createmode3::EXCLUSIVE => 2,
        }
    }

    pub open spec fn encoding(self) -> Seq<u8> {
        xdr_u32(self.number())
    }

    pub fn serialize(&self, out: &mut Vec<u8>)
        ensures
            final(out)@ == old(out)@ + self.encoding(),
    {
        match self {
            createmode3::UNCHECKED => write_u32(out, 0),
            createmode3::GUARDED => write_u32(out, 1),
            createmode3::EXCLUSIVE => write_u32(out, 2),
        }
    }

    pub fn deserialize(input: &mut Input) -> (r: Result<createmode3, XdrError>)
        ensures
            reads(parse_createmode3(old(input)@), r, final(input)@),
    {
        let n: u32 = input.read_u32()?;
        match n {
            0 => Ok(createmode3::UNCHECKED),
            1 => Ok(createmode3::GUARDED),
            2 => Ok(createmode3::EXCLUSIVE),
            _ => Err(XdrError::InvalidEnum),
        }
    }
}

pub open spec fn parse_createmode3(s: Seq<u8>) -> Parsed<createmode3> {
    match parse_u32(s) {
        Err(e) => Err(e),
        Ok((n, s)) => if n == 0 {
            Ok((createmode3::UNCHECKED, s))
        } else if n == 1 {
            Ok((createmode3::GUARDED, s))
        } else if n == 2 {
            Ok((createmode3::EXCLUSIVE, s))
        } else {
            Err(XdrError::InvalidEnum)
        },
    }
}

/// Reading gives back the mode that was written, and what follows it.
pub broadcast proof fn createmode3_round_trip(m: createmode3, rest: Seq<u8>)
    ensures
        #[trigger] parse_createmode3(m.encoding() + rest) == Ok::<
            (createmode3, Seq<u8>),
            XdrError,
        >((m, rest)),
{
    u32_round_trip(m.number(), rest);
}

/// How CREATE is to make a file. The attributes are decoded ahead of their use,
/// so an error in them is kept.
#[derive(Clone, Copy, Debug, PartialEq, Eq)]
pub enum createhow3 {
    UNCHECKED(Result<sattr3, XdrError>),
    GUARDED(Result<sattr3, XdrError>),
    EXCLUSIVE,
}

/// The arguments of CREATE.
#[derive(Clone, Debug, PartialEq, Eq)]
pub struct CREATE3args {
    pub where_: diropargs3,
    pub how: createhow3,
}

pub type CREATE3argsView = (diropargs3View, createhow3);

impl View for CREATE3args {
    type V = CREATE3argsView;

    open spec fn view(&self) -> CREATE3argsView {
        (self.where_@, self.how)
    }
}

/// The attributes at the front of the input, or the error in them.
pub open spec fn sattr3_at_front(s: Seq<u8>) -> Result<sattr3, XdrError> {
    match parse_sattr3(s) {
        Ok((attributes, _)) => Ok(attributes),
        Err(e) => Err(e),
    }
}

pub open spec fn parse_CREATE3args(s: Seq<u8>) -> Result<CREATE3argsView, XdrError> {
    match parse_diropargs3(s) {
        Err(e) => Err(e),
        Ok((where_, s)) => match parse_createmode3(s) {
            Err(e) => Err(e),
            Ok((mode, s)) => Ok(
                (
                    where_,
                    match mode {
                        createmode3::UNCHECKED => createhow3::UNCHECKED(sattr3_at_front(s)),
                        createmode3::GUARDED => createhow3::GUARDED(sattr3_at_front(s)),
                        createmode3::EXCLUSIVE => createhow3::EXCLUSIVE,
                    },
                ),
            ),
        },
    }
}

impl CREATE3args {
    pub fn deserialize(input: &mut Input) -> (r: Result<CREATE3args, XdrError>)
        ensures
            match parse_CREATE3args(old(input)@) {
                Ok(v) => r matches Ok(args) && args@ == v,
                Err(e) => r == Err::<CREATE3args, XdrError>(e),
            },
    {
        let where_ = diropargs3::deserialize(input)?;
        let mode = createmode3::deserialize(input)?;
        let how = match mode {
            createmode3::UNCHECKED => createhow3::UNCHECKED(sattr3::deserialize(input)),
            createmode3::GUARDED => createhow3::GUARDED(sattr3::deserialize(input)),
            createmode3::EXCLUSIVE => createhow3::EXCLUSIVE,
        };
        Ok(CREATE3args { where_, how })
    }
}

/// Reading gives back the arguments that were written. Attributes follow the mode
/// unless it is exclusive.
pub proof fn CREATE3args_round_trip(where_: diropargs3View, how: createhow3, rest: Seq<u8>)
    requires
        diropargs3_fits(where_),
        how matches createhow3::UNCHECKED(attributes) ==> attributes is Ok,
        how matches createhow3::GUARDED(attributes) ==> attributes is Ok,
    ensures
        ({
            let encoded = match how {
                createhow3::UNCHECKED(attributes) => createmode3::UNCHECKED.encoding() + (
                attributes->Ok_0.encoding() + rest),
                createhow3::GUARDED(attributes) => createmode3::GUARDED.encoding() + (
                attributes->Ok_0.encoding() + rest),
                createhow3::EXCLUSIVE => createmode3::EXCLUSIVE.encoding() + rest,
            };
            parse_CREATE3args(xdr_diropargs3(where_) + encoded) == Ok::<CREATE3argsView, XdrError>(
                (where_, how),
            )
        }),
{
    match how {
        createhow3::UNCHECKED(attributes) => {
            let behind = attributes->Ok_0.encoding() + rest;
            diropargs3_round_trip(where_, createmode3::UNCHECKED.encoding() + behind);
            createmode3_round_trip(createmode3::UNCHECKED, behind);
            sattr3_round_trip(attributes->Ok_0, rest);
        },
        createhow3::GUARDED(attributes) => {
            let behind = attributes->Ok_0.encoding() + rest;
            diropargs3_round_trip(where_, createmode3::GUARDED.encoding() + behind);
            createmode3_round_trip(createmode3::GUARDED, behind);
            sattr3_round_trip(attributes->Ok_0, rest);
        },
        createhow3::EXCLUSIVE => {
            diropargs3_round_trip(where_, createmode3::EXCLUSIVE.encoding() + rest);
            createmode3_round_trip(createmode3::EXCLUSIVE, rest);
        },
    }
}

// ------------------------------------------------------------ nothing is made up

/// Bytes that are read fill as much as bytes that are written.
proof fn lemma_opaque_fills(s: Seq<u8>)
    ensures
        parse_opaque(s) matches Ok((data, rest)) ==> s.len() == xdr_opaque(data).len() + rest.len(),
{
    broadcast use crate::xdr::group_xdr_lengths;

}

/// What is read of attributes to set, and of a guard, fills as much of the input as
/// was written: where the input ends earlier, nothing is made up in its place.
pub proof fn lemma_attributes_fill_their_place(s: Seq<u8>)
    ensures
        parse_set_mode3(s) matches Ok((v, rest)) ==> s.len() == v.encoding().len() + rest.len(),
        parse_set_uid3(s) matches Ok((v, rest)) ==> s.len() == v.encoding().len() + rest.len(),
        parse_set_gid3(s) matches Ok((v, rest)) ==> s.len() == v.encoding().len() + rest.len(),
        parse_set_size3(s) matches Ok((v, rest)) ==> s.len() == v.encoding().len() + rest.len(),
        parse_set_atime(s) matches Ok((v, rest)) ==> s.len() == v.encoding().len() + rest.len(),
        parse_set_mtime(s) matches Ok((v, rest)) ==> s.len() == v.encoding().len() + rest.len(),
        parse_sattrguard3(s) matches Ok((v, rest)) ==> s.len() == v.encoding().len() + rest.len(),
        parse_sattr3(s) matches Ok((v, rest)) ==> s.len() == v.encoding().len() + rest.len(),
{
    set_mode3_fills(s);
    set_uid3_fills(s);
    set_gid3_fills(s);
    set_size3_fills(s);
    set_atime_fills(s);
    set_mtime_fills(s);
    sattrguard3_fills(s);
    sattr3_fills(s);
}

proof fn set_mode3_fills(s: Seq<u8>)
    ensures
        parse_set_mode3(s) matches Ok((v, rest)) ==> s.len() == v.encoding().len() + rest.len(),
{
    broadcast use crate::xdr::group_xdr_lengths;

}

proof fn set_uid3_fills(s: Seq<u8>)
    ensures
        parse_set_uid3(s) matches Ok((v, rest)) ==> s.len() == v.encoding().len() + rest.len(),
{
    broadcast use crate::xdr::group_xdr_lengths;

}

proof fn set_gid3_fills(s: Seq<u8>)
    ensures
        parse_set_gid3(s) matches Ok((v, rest)) ==> s.len() == v.encoding().len() + rest.len(),
{
    broadcast use crate::xdr::group_xdr_lengths;

}

proof fn set_size3_fills(s: Seq<u8>)
    ensures
        parse_set_size3(s) matches Ok((v, rest)) ==> s.len() == v.encoding().len() + rest.len(),
{
    broadcast use crate::xdr::group_xdr_lengths;

}

proof fn set_atime_fills(s: Seq<u8>)
    ensures
        parse_set_atime(s) matches Ok((v, rest)) ==> s.len() == v.encoding().len() + rest.len(),
{
    broadcast use crate::xdr::group_xdr_lengths;

}

proof fn set_mtime_fills(s: Seq<u8>)
    ensures
        parse_set_mtime(s) matches Ok((v, rest)) ==> s.len() == v.encoding().len() + rest.len(),
{
    broadcast use crate::xdr::group_xdr_lengths;

}

proof fn sattrguard3_fills(s: Seq<u8>)
    ensures
        parse_sattrguard3(s) matches Ok((v, rest)) ==> s.len() == v.encoding().len() + rest.len(),
{
    broadcast use crate::xdr::group_xdr_lengths;

}

proof fn sattr3_fills(s: Seq<u8>)
    ensures
        parse_sattr3(s) matches Ok((v, rest)) ==> s.len() == v.encoding().len() + rest.len(),
{
    reveal(sattr3::encoding);
    reveal(parse_sattr3);
    if let Ok((v, rest)) = parse_sattr3(s) {
        let s1 = parse_set_mode3(s)->Ok_0.1;
        let s2 = parse_set_uid3(s1)->Ok_0.1;
        let s3 = parse_set_gid3(s2)->Ok_0.1;
        let s4 = parse_set_size3(s3)->Ok_0.1;
        let s5 = parse_set_atime(s4)->Ok_0.1;
        set_mode3_fills(s);
        set_uid3_fills(s1);
        set_gid3_fills(s2);
        set_size3_fills(s3);
        set_atime_fills(s4);
        set_mtime_fills(s5);
        lemma_six_lengths(
            v.mode.encoding(),
            v.uid.encoding(),
            v.gid.encoding(),
            v.size.encoding(),
            v.atime.encoding(),
            v.mtime.encoding(),
        );
    }
}

proof fn lemma_six_lengths(
    a: Seq<u8>,
    b: Seq<u8>,
    c: Seq<u8>,
    d: Seq<u8>,
    e: Seq<u8>,
    f: Seq<u8>,
)
    ensures
        (a + b + c + d + e + f).len() == a.len() + b.len() + c.len() + d.len() + e.len() + f.len(),
{
}

/// Where arguments are read, they fill as much of the input as was written: where
/// the input ends earlier, no argument is made up in its place.
pub proof fn lemma_arguments_fill_their_place(s: Seq<u8>)
    ensures
        parse_diropargs3(s) matches Ok((v, rest)) ==> s.len()
            == xdr_diropargs3(v).len() + rest.len(),
        parse_READ3args(s) matches Ok((v, rest)) ==> s.len() == xdr_READ3args(v).len() + rest.len(),
        parse_WRITE3args(s) matches Ok((v, rest)) ==> s.len()
            == xdr_WRITE3args(v).len() + rest.len(),
        parse_COMMIT3args(s) matches Ok((v, rest)) ==> s.len()
            == xdr_COMMIT3args(v).len() + rest.len(),
        parse_READDIR3args(s) matches Ok((v, rest)) ==> s.len()
            == xdr_READDIR3args(v).len() + rest.len(),
        parse_READDIRPLUS3args(s) matches Ok((v, rest)) ==> s.len()
            == xdr_READDIRPLUS3args(v).len() + rest.len(),
        parse_SETATTR3args(s) matches Ok((v, rest)) ==> s.len()
            == xdr_SETATTR3args(v).len() + rest.len(),
        parse_RENAME3args(s) matches Ok((v, rest)) ==> s.len()
            == xdr_RENAME3args(v).len() + rest.len(),
        parse_MKDIR3args(s) matches Ok((v, rest)) ==> s.len()
            == xdr_MKDIR3args(v).len() + rest.len(),
        parse_symlinkdata3(s) matches Ok((v, rest)) ==> s.len()
            == xdr_symlinkdata3(v).len() + rest.len(),
        parse_SYMLINK3args(s) matches Ok((v, rest)) ==> s.len()
            == xdr_SYMLINK3args(v).len() + rest.len(),
        parse_LINK3args(s) matches Ok((v, rest)) ==> s.len() == xdr_LINK3args(v).len() + rest.len(),
        parse_MKNOD3args(s) matches Ok((v, rest)) ==> s.len()
            == xdr_MKNOD3args(v).len() + rest.len(),
        parse_devicedata3(s) matches Ok((v, rest)) ==> s.len() == v.encoding().len() + rest.len(),
        parse_mknoddata3(s) matches Ok((v, rest)) ==> s.len() == v.encoding().len() + rest.len(),
        parse_CREATE3args(s) matches Ok((where_, how)) ==> s.len() >= xdr_diropargs3(where_).len()
            + 4,
{
    diropargs3_fills(s);
    READ3args_fills(s);
    WRITE3args_fills(s);
    COMMIT3args_fills(s);
    READDIR3args_fills(s);
    READDIRPLUS3args_fills(s);
    SETATTR3args_fills(s);
    RENAME3args_fills(s);
    MKDIR3args_fills(s);
    symlinkdata3_fills(s);
    SYMLINK3args_fills(s);
    LINK3args_fills(s);
    MKNOD3args_fills(s);
    devicedata3_fills(s);
    mknoddata3_fills(s);
    CREATE3args_fills(s);
}

proof fn diropargs3_fills(s: Seq<u8>)
    ensures
        parse_diropargs3(s) matches Ok((v, rest)) ==> s.len()
            == xdr_diropargs3(v).len() + rest.len(),
{
    broadcast use crate::xdr::group_xdr_lengths;

    lemma_opaque_fills(s);
    if let Ok((_, s1)) = parse_opaque(s) {
        lemma_opaque_fills(s1);
    }
}

proof fn READ3args_fills(s: Seq<u8>)
    ensures
        parse_READ3args(s) matches Ok((v, rest)) ==> s.len() == xdr_READ3args(v).len() + rest.len(),
{
    broadcast use crate::xdr::group_xdr_lengths;

    lemma_opaque_fills(s);
    if let Ok((_, s1)) = parse_opaque(s) {
        if let Ok((_, s2)) = parse_u64(s1) {
        }
    }
}

proof fn WRITE3args_fills(s: Seq<u8>)
    ensures
        parse_WRITE3args(s) matches Ok((v, rest)) ==> s.len()
            == xdr_WRITE3args(v).len() + rest.len(),
{
    broadcast use crate::xdr::group_xdr_lengths;

    lemma_opaque_fills(s);
    if let Ok((_, s1)) = parse_opaque(s) {
        if let Ok((_, s2)) = parse_u64(s1) {
            if let Ok((_, s3)) = parse_u32(s2) {
                if let Ok((_, s4)) = parse_u32(s3) {
                    lemma_opaque_fills(s4);
                }
            }
        }
    }
}

proof fn COMMIT3args_fills(s: Seq<u8>)
    ensures
        parse_COMMIT3args(s) matches Ok((v, rest)) ==> s.len()
            == xdr_COMMIT3args(v).len() + rest.len(),
{
    broadcast use crate::xdr::group_xdr_lengths;

    lemma_opaque_fills(s);
    if let Ok((_, s1)) = parse_opaque(s) {
        if let Ok((_, s2)) = parse_u64(s1) {
        }
    }
}

proof fn READDIR3args_fills(s: Seq<u8>)
    ensures
        parse_READDIR3args(s) matches Ok((v, rest)) ==> s.len()
            == xdr_READDIR3args(v).len() + rest.len(),
{
    broadcast use crate::xdr::group_xdr_lengths;

    lemma_opaque_fills(s);
    if let Ok((_, s1)) = parse_opaque(s) {
        if let Ok((_, s2)) = parse_u64(s1) {
            if let Ok((_, s3)) = parse_opaque8(s2) {
            }
        }
    }
}

proof fn READDIRPLUS3args_fills(s: Seq<u8>)
    ensures
        parse_READDIRPLUS3args(s) matches Ok((v, rest)) ==> s.len()
            == xdr_READDIRPLUS3args(v).len() + rest.len(),
{
    broadcast use crate::xdr::group_xdr_lengths;

    lemma_opaque_fills(s);
    if let Ok((_, s1)) = parse_opaque(s) {
        if let Ok((_, s2)) = parse_u64(s1) {
            if let Ok((_, s3)) = parse_opaque8(s2) {
                if let Ok((_, s4)) = parse_u32(s3) {
                }
            }
        }
    }
}

proof fn SETATTR3args_fills(s: Seq<u8>)
    ensures
        parse_SETATTR3args(s) matches Ok((v, rest)) ==> s.len()
            == xdr_SETATTR3args(v).len() + rest.len(),
{
    broadcast use crate::xdr::group_xdr_lengths;

    lemma_opaque_fills(s);
    if let Ok((_, s1)) = parse_opaque(s) {
        lemma_attributes_fill_their_place(s1);
        if let Ok((_, s2)) = parse_sattr3(s1) {
            lemma_attributes_fill_their_place(s2);
        }
    }
}

proof fn RENAME3args_fills(s: Seq<u8>)
    ensures
        parse_RENAME3args(s) matches Ok((v, rest)) ==> s.len()
            == xdr_RENAME3args(v).len() + rest.len(),
{
    broadcast use crate::xdr::group_xdr_lengths;

    diropargs3_fills(s);
    if let Ok((_, s1)) = parse_diropargs3(s) {
        diropargs3_fills(s1);
    }
}

proof fn MKDIR3args_fills(s: Seq<u8>)
    ensures
        parse_MKDIR3args(s) matches Ok((v, rest)) ==> s.len()
            == xdr_MKDIR3args(v).len() + rest.len(),
{
    broadcast use crate::xdr::group_xdr_lengths;

    diropargs3_fills(s);
    if let Ok((_, s1)) = parse_diropargs3(s) {
        lemma_attributes_fill_their_place(s1);
    }
}

proof fn symlinkdata3_fills(s: Seq<u8>)
    ensures
        parse_symlinkdata3(s) matches Ok((v, rest)) ==> s.len()
            == xdr_symlinkdata3(v).len() + rest.len(),
{
    broadcast use crate::xdr::group_xdr_lengths;

    lemma_attributes_fill_their_place(s);
    if let Ok((_, s1)) = parse_sattr3(s) {
        lemma_opaque_fills(s1);
    }
}

proof fn SYMLINK3args_fills(s: Seq<u8>)
    ensures
        parse_SYMLINK3args(s) matches Ok((v, rest)) ==> s.len()
            == xdr_SYMLINK3args(v).len() + rest.len(),
{
    broadcast use crate::xdr::group_xdr_lengths;

    diropargs3_fills(s);
    if let Ok((_, s1)) = parse_diropargs3(s) {
        symlinkdata3_fills(s1);
    }
}

proof fn LINK3args_fills(s: Seq<u8>)
    ensures
        parse_LINK3args(s) matches Ok((v, rest)) ==> s.len() == xdr_LINK3args(v).len() + rest.len(),
{
    broadcast use crate::xdr::group_xdr_lengths;

    lemma_opaque_fills(s);
    if let Ok((_, s1)) = parse_opaque(s) {
        diropargs3_fills(s1);
    }
}

proof fn devicedata3_fills(s: Seq<u8>)
    ensures
        parse_devicedata3(s) matches Ok((v, rest)) ==> s.len() == v.encoding().len() + rest.len(),
{
    broadcast use crate::xdr::group_xdr_lengths;

    lemma_attributes_fill_their_place(s);
    if let Ok((_, s1)) = parse_sattr3(s) {
    }
}

proof fn mknoddata3_fills(s: Seq<u8>)
    ensures
        parse_mknoddata3(s) matches Ok((v, rest)) ==> s.len() == v.encoding().len() + rest.len(),
{
    broadcast use crate::xdr::group_xdr_lengths;

    if let Ok((_, s1)) = parse_u32(s) {
        devicedata3_fills(s1);
        lemma_attributes_fill_their_place(s1);
    }
}

proof fn MKNOD3args_fills(s: Seq<u8>)
    ensures
        parse_MKNOD3args(s) matches Ok((v, rest)) ==> s.len()
            == xdr_MKNOD3args(v).len() + rest.len(),
{
    broadcast use crate::xdr::group_xdr_lengths;

    diropargs3_fills(s);
    if let Ok((_, s1)) = parse_diropargs3(s) {
        mknoddata3_fills(s1);
    }
}

proof fn CREATE3args_fills(s: Seq<u8>)
    ensures
        parse_CREATE3args(s) matches Ok((where_, how)) ==> s.len() >= xdr_diropargs3(where_).len()
            + 4,
{
    diropargs3_fills(s);
}

// ------------------------------------------------------------------- choices

/// A choice that clients do not know cannot be read: a mode of creation beyond the
/// three, a way to set a time beyond the three, a type of file that there is not. A
/// flag is set by any number but zero.
pub proof fn lemma_choices_are_known(n: u32, m: u32, size: u64, rest: Seq<u8>)
    ensures
        n > 2 ==> parse_createmode3(xdr_u32(n) + rest) is Err,
        n > 2 ==> parse_set_atime(xdr_u32(n) + rest) is Err,
        n > 2 ==> parse_set_mtime(xdr_u32(n) + rest) is Err,
        n == 0 || n > 7 ==> parse_mknoddata3(xdr_u32(n) + rest) is Err,
        n > 0 ==> parse_set_mode3(xdr_u32(n) + (xdr_u32(m) + rest)) == Ok::<
            (set_mode3, Seq<u8>),
            XdrError,
        >((set_mode3::mode(m), rest)),
        n > 0 ==> parse_set_uid3(xdr_u32(n) + (xdr_u32(m) + rest)) == Ok::<
            (set_uid3, Seq<u8>),
            XdrError,
        >((set_uid3::uid(m), rest)),
        n > 0 ==> parse_set_gid3(xdr_u32(n) + (xdr_u32(m) + rest)) == Ok::<
            (set_gid3, Seq<u8>),
            XdrError,
        >((set_gid3::gid(m), rest)),
        n > 0 ==> parse_set_size3(xdr_u32(n) + (xdr_u64(size) + rest)) == Ok::<
            (set_size3, Seq<u8>),
            XdrError,
        >((set_size3::size(size), rest)),
{
    u32_round_trip(n, rest);
    u32_round_trip(n, xdr_u32(m) + rest);
    u32_round_trip(n, xdr_u64(size) + rest);
    u32_round_trip(m, rest);
    u64_round_trip(size, rest);
}

} // verus!
