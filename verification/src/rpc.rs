//! Remote procedure calls: the messages around every procedure (RFC 5531).
use crate::xdr::{
    parse_opaque, parse_u32, reads, reads_view, write_u32, xdr_u32, Input, Parsed, XdrError,
};
use vstd::prelude::*;

verus! {

/// The version of the RPC protocol.
pub const RPC_VERSION: u32 = 2;

// -------------------------------------------------------------- credentials

/// How a caller identifies itself.
#[derive(Clone, Copy, Debug, PartialEq, Eq, Structural)]
pub enum auth_flavor {
    AUTH_NULL,
    AUTH_UNIX,
    AUTH_SHORT,
    AUTH_DES,
}

impl auth_flavor {
    pub open spec fn number(self) -> u32 {
        match self {
            auth_flavor::AUTH_NULL => 0,
            auth_flavor::AUTH_UNIX => 1,
            auth_flavor::AUTH_SHORT => 2,
            auth_flavor::AUTH_DES => 3,
        }
    }

    pub fn deserialize(input: &mut Input) -> (r: Result<auth_flavor, XdrError>)
        ensures
            reads(parse_auth_flavor(old(input)@), r, final(input)@),
    {
        let n: u32 = input.read_u32()?;
        match n {
            0 => Ok(auth_flavor::AUTH_NULL),
            1 => Ok(auth_flavor::AUTH_UNIX),
            2 => Ok(auth_flavor::AUTH_SHORT),
            3 => Ok(auth_flavor::AUTH_DES),
            _ => Err(XdrError::InvalidEnum),
        }
    }
}

pub open spec fn parse_auth_flavor(s: Seq<u8>) -> Parsed<auth_flavor> {
    match parse_u32(s) {
        Err(e) => Err(e),
        Ok((n, s)) => if n == 0 {
            Ok((auth_flavor::AUTH_NULL, s))
        } else if n == 1 {
            Ok((auth_flavor::AUTH_UNIX, s))
        } else if n == 2 {
            Ok((auth_flavor::AUTH_SHORT, s))
        } else if n == 3 {
            Ok((auth_flavor::AUTH_DES, s))
        } else {
            Err(XdrError::InvalidEnum)
        },
    }
}

/// A credential or a verifier, its body not yet decoded.
#[derive(Clone, Debug, PartialEq, Eq)]
pub struct opaque_auth {
    pub flavor: auth_flavor,
    pub body: Vec<u8>,
}

impl View for opaque_auth {
    type V = (auth_flavor, Seq<u8>);

    open spec fn view(&self) -> (auth_flavor, Seq<u8>) {
        (self.flavor, self.body@)
    }
}

impl opaque_auth {
    pub fn deserialize(input: &mut Input) -> (r: Result<opaque_auth, XdrError>)
        ensures
            reads_view(parse_opaque_auth(old(input)@), r, final(input)@),
    {
        let flavor = auth_flavor::deserialize(input)?;
        let body = input.read_opaque()?;
        Ok(opaque_auth { flavor, body })
    }
}

pub open spec fn parse_opaque_auth(s: Seq<u8>) -> Parsed<(auth_flavor, Seq<u8>)> {
    match parse_auth_flavor(s) {
        Err(e) => Err(e),
        Ok((flavor, s)) => match parse_opaque(s) {
            Err(e) => Err(e),
            Ok((body, s)) => Ok(((flavor, body), s)),
        },
    }
}

/// The body of a credential of the `AUTH_UNIX` flavor.
#[derive(Clone, Debug, PartialEq, Eq)]
pub struct auth_unix {
    pub stamp: u32,
    pub machinename: Vec<u8>,
    pub uid: u32,
    pub gid: u32,
    pub gids: Vec<u32>,
}

pub type auth_unixView = (u32, Seq<u8>, u32, u32, Seq<u32>);

impl View for auth_unix {
    type V = auth_unixView;

    open spec fn view(&self) -> auth_unixView {
        (self.stamp, self.machinename@, self.uid, self.gid, self.gids@)
    }
}

impl Default for auth_unix {
    fn default() -> (r: auth_unix)
        ensures
            r@ == (0u32, Seq::<u8>::empty(), 0u32, 0u32, Seq::<u32>::empty()),
    {
        auth_unix { stamp: 0, machinename: Vec::new(), uid: 0, gid: 0, gids: Vec::new() }
    }
}

/// `n` numbers in a row.
pub open spec fn parse_u32s(n: nat, s: Seq<u8>) -> Parsed<Seq<u32>>
    decreases n,
{
    if n == 0 {
        Ok((Seq::empty(), s))
    } else {
        match parse_u32s((n - 1) as nat, s) {
            Err(e) => Err(e),
            Ok((head, s)) => match parse_u32(s) {
                Err(e) => Err(e),
                Ok((last, s)) => Ok((head.push(last), s)),
            },
        }
    }
}

/// An array of numbers: its length, then its items.
pub open spec fn parse_u32_array(s: Seq<u8>) -> Parsed<Seq<u32>> {
    match parse_u32(s) {
        Err(e) => Err(e),
        Ok((n, s)) => parse_u32s(n as nat, s),
    }
}

/// Where a row of numbers cannot be read, neither can a longer one.
proof fn lemma_short_row(m: nat, n: nat, s: Seq<u8>)
    requires
        m <= n,
        parse_u32s(m, s) is Err,
    ensures
        parse_u32s(n, s) == parse_u32s(m, s),
    decreases n,
{
    if m < n {
        lemma_short_row(m, (n - 1) as nat, s);
    }
}

pub(crate) fn read_u32_array(input: &mut Input) -> (r: Result<Vec<u32>, XdrError>)
    ensures
        reads_view(parse_u32_array(old(input)@), r, final(input)@),
{
    let n: u32 = input.read_u32()?;
    let ghost items = input@;
    let mut out: Vec<u32> = Vec::new();
    let mut i: u32 = 0;
    while i < n
        invariant
            i <= n,
            parse_u32_array(old(input)@) == parse_u32s(n as nat, items),
            parse_u32s(i as nat, items) == Ok::<(Seq<u32>, Seq<u8>), XdrError>((out@, input@)),
        decreases n - i,
    {
        let ghost behind = input@;
        match input.read_u32() {
            Ok(x) => {
                out.push(x);
                i = i + 1;
            },
            Err(e) => {
                proof {
                    assert(parse_u32s((i + 1) as nat, items) == Err::<
                        (Seq<u32>, Seq<u8>),
                        XdrError,
                    >(e));
                    lemma_short_row((i + 1) as nat, n as nat, items);
                }
                return Err(e);
            },
        }
    }
    Ok(out)
}

impl auth_unix {
    pub fn deserialize(input: &mut Input) -> (r: Result<auth_unix, XdrError>)
        ensures
            reads_view(parse_auth_unix(old(input)@), r, final(input)@),
    {
        let stamp: u32 = input.read_u32()?;
        let machinename = input.read_opaque()?;
        let uid: u32 = input.read_u32()?;
        let gid: u32 = input.read_u32()?;
        let gids = read_u32_array(input)?;
        Ok(auth_unix { stamp, machinename, uid, gid, gids })
    }
}

pub open spec fn parse_auth_unix(s: Seq<u8>) -> Parsed<auth_unixView> {
    match parse_u32(s) {
        Err(e) => Err(e),
        Ok((stamp, s)) => match parse_opaque(s) {
            Err(e) => Err(e),
            Ok((machinename, s)) => match parse_u32(s) {
                Err(e) => Err(e),
                Ok((uid, s)) => match parse_u32(s) {
                    Err(e) => Err(e),
                    Ok((gid, s)) => match parse_u32_array(s) {
                        Err(e) => Err(e),
                        Ok((gids, s)) => Ok(((stamp, machinename, uid, gid, gids), s)),
                    },
                },
            },
        },
    }
}

// -------------------------------------------------------------------- calls

/// The head of a call, in front of the arguments of the procedure.
#[derive(Clone, Debug, PartialEq, Eq)]
pub struct call_body {
    pub rpcvers: u32,
    pub prog: u32,
    pub vers: u32,
    pub proc: u32,
    pub cred: opaque_auth,
    pub verf: opaque_auth,
}

pub type call_bodyView = (u32, u32, u32, u32, (auth_flavor, Seq<u8>), (auth_flavor, Seq<u8>));

impl View for call_body {
    type V = call_bodyView;

    open spec fn view(&self) -> call_bodyView {
        (self.rpcvers, self.prog, self.vers, self.proc, self.cred@, self.verf@)
    }
}

impl call_body {
    pub fn deserialize(input: &mut Input) -> (r: Result<call_body, XdrError>)
        ensures
            reads_view(parse_call_body(old(input)@), r, final(input)@),
    {
        let rpcvers: u32 = input.read_u32()?;
        let prog: u32 = input.read_u32()?;
        let vers: u32 = input.read_u32()?;
        let proc: u32 = input.read_u32()?;
        let cred = opaque_auth::deserialize(input)?;
        let verf = opaque_auth::deserialize(input)?;
        Ok(call_body { rpcvers, prog, vers, proc, cred, verf })
    }
}

pub open spec fn parse_call_body(s: Seq<u8>) -> Parsed<call_bodyView> {
    match parse_u32(s) {
        Err(e) => Err(e),
        Ok((rpcvers, s)) => match parse_u32(s) {
            Err(e) => Err(e),
            Ok((prog, s)) => match parse_u32(s) {
                Err(e) => Err(e),
                Ok((vers, s)) => match parse_u32(s) {
                    Err(e) => Err(e),
                    Ok((proc, s)) => match parse_opaque_auth(s) {
                        Err(e) => Err(e),
                        Ok((cred, s)) => match parse_opaque_auth(s) {
                            Err(e) => Err(e),
                            Ok((verf, s)) => Ok(((rpcvers, prog, vers, proc, cred, verf), s)),
                        },
                    },
                },
            },
        },
    }
}

/// The body of a message. A reply is not decoded: a server has no use for one.
#[derive(Clone, Debug, PartialEq, Eq)]
pub enum rpc_body {
    CALL(call_body),
    REPLY,
}

impl View for rpc_body {
    type V = Option<call_bodyView>;

    open spec fn view(&self) -> Option<call_bodyView> {
        match self {
            rpc_body::CALL(call) => Some(call@),
            rpc_body::REPLY => None,
        }
    }
}

/// A message.
#[derive(Clone, Debug, PartialEq, Eq)]
pub struct rpc_msg {
    pub xid: u32,
    pub body: rpc_body,
}

impl View for rpc_msg {
    type V = (u32, Option<call_bodyView>);

    open spec fn view(&self) -> (u32, Option<call_bodyView>) {
        (self.xid, self.body@)
    }
}

impl rpc_msg {
    pub fn deserialize(input: &mut Input) -> (r: Result<rpc_msg, XdrError>)
        ensures
            reads_view(parse_rpc_msg(old(input)@), r, final(input)@),
    {
        let xid: u32 = input.read_u32()?;
        let kind: u32 = input.read_u32()?;
        match kind {
            0 => {
                let call = call_body::deserialize(input)?;
                Ok(rpc_msg { xid, body: rpc_body::CALL(call) })
            },
            1 => Ok(rpc_msg { xid, body: rpc_body::REPLY }),
            _ => Err(XdrError::InvalidEnum),
        }
    }
}

pub open spec fn parse_rpc_msg(s: Seq<u8>) -> Parsed<(u32, Option<call_bodyView>)> {
    match parse_u32(s) {
        Err(e) => Err(e),
        Ok((xid, s)) => match parse_u32(s) {
            Err(e) => Err(e),
            Ok((kind, s)) => if kind == 0 {
                match parse_call_body(s) {
                    Err(e) => Err(e),
                    Ok((call, s)) => Ok(((xid, Some(call)), s)),
                }
            } else if kind == 1 {
                Ok(((xid, None), s))
            } else {
                Err(XdrError::InvalidEnum)
            },
        },
    }
}

// ------------------------------------------------------------------ replies

/// The head of a reply to a call that was accepted: a null verifier and the
/// status of the acceptance.
pub open spec fn accepted_reply(xid: u32, status: u32) -> Seq<u8> {
    xdr_u32(xid) + xdr_u32(1) + xdr_u32(0) + xdr_u32(0) + xdr_u32(0) + xdr_u32(status)
}

/// The procedure was carried out; its result follows.
pub open spec fn success_reply(xid: u32) -> Seq<u8> {
    accepted_reply(xid, 0)
}

pub open spec fn prog_unavail_reply(xid: u32) -> Seq<u8> {
    accepted_reply(xid, 1)
}

/// The program is served in version `accepts` only.
pub open spec fn prog_mismatch_reply(xid: u32, accepts: u32) -> Seq<u8> {
    accepted_reply(xid, 2) + xdr_u32(accepts) + xdr_u32(accepts)
}

pub open spec fn proc_unavail_reply(xid: u32) -> Seq<u8> {
    accepted_reply(xid, 3)
}

pub open spec fn garbage_args_reply(xid: u32) -> Seq<u8> {
    accepted_reply(xid, 4)
}

/// The call was denied: only version 2 of the RPC protocol is served.
pub open spec fn rpc_mismatch_reply(xid: u32) -> Seq<u8> {
    xdr_u32(xid) + xdr_u32(1) + xdr_u32(1) + xdr_u32(0) + xdr_u32(RPC_VERSION) + xdr_u32(
        RPC_VERSION,
    )
}

fn write_accepted(xid: u32, status: u32) -> (out: Vec<u8>)
    ensures
        out@ == accepted_reply(xid, status),
{
    let mut out: Vec<u8> = Vec::new();
    write_u32(&mut out, xid);
    assert(out@ =~= xdr_u32(xid));
    write_u32(&mut out, 1);
    write_u32(&mut out, 0);
    write_u32(&mut out, 0);
    write_u32(&mut out, 0);
    write_u32(&mut out, status);
    out
}

pub fn make_success_reply(xid: u32) -> (out: Vec<u8>)
    ensures
        out@ == success_reply(xid),
{
    write_accepted(xid, 0)
}

pub fn prog_unavail_reply_message(xid: u32) -> (out: Vec<u8>)
    ensures
        out@ == prog_unavail_reply(xid),
{
    write_accepted(xid, 1)
}

pub fn prog_mismatch_reply_message(xid: u32, accepts: u32) -> (out: Vec<u8>)
    ensures
        out@ == prog_mismatch_reply(xid, accepts),
{
    let mut out = write_accepted(xid, 2);
    write_u32(&mut out, accepts);
    write_u32(&mut out, accepts);
    out
}

pub fn proc_unavail_reply_message(xid: u32) -> (out: Vec<u8>)
    ensures
        out@ == proc_unavail_reply(xid),
{
    write_accepted(xid, 3)
}

pub fn garbage_args_reply_message(xid: u32) -> (out: Vec<u8>)
    ensures
        out@ == garbage_args_reply(xid),
{
    write_accepted(xid, 4)
}

pub fn rpc_vers_mismatch(xid: u32) -> (out: Vec<u8>)
    ensures
        out@ == rpc_mismatch_reply(xid),
{
    let mut out: Vec<u8> = Vec::new();
    write_u32(&mut out, xid);
    assert(out@ =~= xdr_u32(xid));
    write_u32(&mut out, 1);
    write_u32(&mut out, 1);
    write_u32(&mut out, 0);
    write_u32(&mut out, RPC_VERSION);
    write_u32(&mut out, RPC_VERSION);
    out
}

// --------------------------------------------------------------------- laws

/// The head of a reply to an accepted call fills twenty-four bytes, and its
/// first four give the transaction of the call back.
pub proof fn lemma_reply_carries_its_transaction(xid: u32, status: u32)
    ensures
        accepted_reply(xid, status).len() == 24,
        parse_u32(accepted_reply(xid, status)) matches Ok((x, _)) && x == xid,
{
    broadcast use crate::xdr::group_xdr_lengths;

    let behind = xdr_u32(1) + xdr_u32(0) + xdr_u32(0) + xdr_u32(0) + xdr_u32(status);
    assert(accepted_reply(xid, status) =~= xdr_u32(xid) + behind);
    crate::xdr::u32_round_trip(xid, behind);
}

} // verus!
