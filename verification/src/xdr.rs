//! External data representation: the byte format of every RPC message.
//!
//! Each item has an encoding, a spec function from a value to bytes, and a
//! parse, a spec function from bytes to a value and the bytes that follow it.
use byteorder::{BigEndian, ReadBytesExt, WriteBytesExt};
use vstd::prelude::*;
use vstd::slice::slice_subrange;

verus! {

/// Why a message could not be decoded.
#[derive(Clone, Copy, Debug, PartialEq, Eq, Structural)]
pub enum XdrError {
    /// The input ended inside an item.
    UnexpectedEof,
    /// An enumeration or a union held a number that names none of its cases.
    InvalidEnum,
}

/// What a parse yields: the value and the bytes behind it, or the error.
pub type Parsed<T> = Result<(T, Seq<u8>), XdrError>;

/// `r` is what a decoder returns, and `rest` what it leaves unread, for `parsed`.
pub open spec fn reads<T>(parsed: Parsed<T>, r: Result<T, XdrError>, rest: Seq<u8>) -> bool {
    match parsed {
        Ok((value, behind)) => r == Ok::<T, XdrError>(value) && rest == behind,
        Err(e) => r == Err::<T, XdrError>(e),
    }
}

/// As `reads`, for a decoded type that is compared by its view.
pub open spec fn reads_view<T: View>(
    parsed: Parsed<T::V>,
    r: Result<T, XdrError>,
    rest: Seq<u8>,
) -> bool {
    match parsed {
        Ok((value, behind)) => r matches Ok(t) && t@ == value && rest == behind,
        Err(e) => r == Err::<T, XdrError>(e),
    }
}

// ---------------------------------------------------------------- integers

/// The four bytes of `n`, most significant first.
#[verifier::opaque]
pub open spec fn xdr_u32(n: u32) -> Seq<u8> {
    seq![
        (n / 0x100_0000) as u8,
        (n / 0x1_0000 % 0x100) as u8,
        (n / 0x100 % 0x100) as u8,
        (n % 0x100) as u8,
    ]
}

/// The number whose four bytes, most significant first, start `s`.
#[verifier::opaque]
pub open spec fn u32_at_front(s: Seq<u8>) -> u32 {
    (s[0] * 0x100_0000 + s[1] * 0x1_0000 + s[2] * 0x100 + s[3]) as u32
}

/// The eight bytes of `n`, most significant first.
#[verifier::opaque]
pub open spec fn xdr_u64(n: u64) -> Seq<u8> {
    xdr_u32((n / 0x1_0000_0000) as u32) + xdr_u32((n % 0x1_0000_0000) as u32)
}

/// The number whose eight bytes, most significant first, start `s`.
#[verifier::opaque]
pub open spec fn u64_at_front(s: Seq<u8>) -> u64 {
    (u32_at_front(s) * 0x1_0000_0000 + u32_at_front(s.skip(4))) as u64
}

pub open spec fn parse_u32(s: Seq<u8>) -> Parsed<u32> {
    if s.len() < 4 {
        Err(XdrError::UnexpectedEof)
    } else {
        Ok((u32_at_front(s), s.skip(4)))
    }
}

pub open spec fn parse_u64(s: Seq<u8>) -> Parsed<u64> {
    if s.len() < 8 {
        Err(XdrError::UnexpectedEof)
    } else {
        Ok((u64_at_front(s), s.skip(8)))
    }
}

/// Calls `byteorder::WriteBytesExt::write_u32` with big-endian order on a
/// vector: it appends the four bytes of `n`, most significant first. Writing to
/// a vector cannot fail.
#[verifier::external_body]
pub(crate) fn write_u32(out: &mut Vec<u8>, n: u32)
    ensures
        final(out)@ == old(out)@ + xdr_u32(n),
{
    out.write_u32::<BigEndian>(n).unwrap()
}

/// Calls `byteorder::WriteBytesExt::write_u64` with big-endian order on a
/// vector: it appends the eight bytes of `n`, most significant first. Writing to
/// a vector cannot fail.
#[verifier::external_body]
pub(crate) fn write_u64(out: &mut Vec<u8>, n: u64)
    ensures
        final(out)@ == old(out)@ + xdr_u64(n),
{
    out.write_u64::<BigEndian>(n).unwrap()
}

/// Calls `byteorder::ReadBytesExt::read_u32` with big-endian order on a slice:
/// the first four bytes, most significant first. It fails only on a slice
/// shorter than that.
#[verifier::external_body]
fn front_u32(mut bytes: &[u8]) -> (n: u32)
    requires
        bytes@.len() >= 4,
    ensures
        n == u32_at_front(bytes@),
{
    bytes.read_u32::<BigEndian>().unwrap()
}

/// Calls `byteorder::ReadBytesExt::read_u64` with big-endian order on a slice:
/// the first eight bytes, most significant first. It fails only on a slice
/// shorter than that.
#[verifier::external_body]
fn front_u64(mut bytes: &[u8]) -> (n: u64)
    requires
        bytes@.len() >= 8,
    ensures
        n == u64_at_front(bytes@),
{
    bytes.read_u64::<BigEndian>().unwrap()
}

// ------------------------------------------------------- booleans and bytes

/// A boolean is the number one or zero.
pub open spec fn xdr_bool(b: bool) -> Seq<u8> {
    xdr_u32(
        if b {
            1u32
        } else {
            0u32
        },
    )
}

/// Every number but zero is read as true.
pub open spec fn parse_bool(s: Seq<u8>) -> Parsed<bool> {
    match parse_u32(s) {
        Ok((n, rest)) => Ok((n > 0, rest)),
        Err(e) => Err(e),
    }
}

/// The number of bytes that fill an item of `len` bytes up to a multiple of four.
pub open spec fn padding(len: nat) -> nat {
    ((4 - len % 4) % 4) as nat
}

/// `n` zero bytes.
pub open spec fn zeros(n: nat) -> Seq<u8> {
    Seq::new(n, |i: int| 0u8)
}

/// Variable-length opaque data: its length, its bytes, zeros up to a multiple of four.
pub open spec fn xdr_opaque(data: Seq<u8>) -> Seq<u8> {
    xdr_u32(data.len() as u32) + data + zeros(padding(data.len()))
}

/// The padding is skipped whatever it holds.
pub open spec fn parse_opaque(s: Seq<u8>) -> Parsed<Seq<u8>> {
    match parse_u32(s) {
        Ok((len, rest)) => if rest.len() < len + padding(len as nat) {
            Err(XdrError::UnexpectedEof)
        } else {
            Ok((rest.take(len as int), rest.skip(len + padding(len as nat))))
        },
        Err(e) => Err(e),
    }
}

/// Fixed-length opaque data of eight bytes has neither length nor padding.
pub open spec fn parse_opaque8(s: Seq<u8>) -> Parsed<Seq<u8>> {
    if s.len() < 8 {
        Err(XdrError::UnexpectedEof)
    } else {
        Ok((s.take(8), s.skip(8)))
    }
}

pub(crate) fn write_bool(out: &mut Vec<u8>, b: bool)
    ensures
        final(out)@ == old(out)@ + xdr_bool(b),
{
    if b {
        write_u32(out, 1);
    } else {
        write_u32(out, 0);
    }
}

pub(crate) fn write_bytes(out: &mut Vec<u8>, data: &[u8])
    ensures
        final(out)@ == old(out)@ + data@,
{
    out.extend_from_slice(data);
    assert(out@ =~= old(out)@ + data@);
}

pub(crate) fn write_opaque(out: &mut Vec<u8>, data: &Vec<u8>)
    requires
        data@.len() <= u32::MAX,
    ensures
        final(out)@ == old(out)@ + xdr_opaque(data@),
{
    let len: u32 = data.len() as u32;
    write_u32(out, len);
    write_bytes(out, data.as_slice());
    let pad: u32 = (4 - len % 4) % 4;
    let ghost unpadded = out@;
    let mut i: u32 = 0;
    while i < pad
        invariant
            i <= pad,
            out@ == unpadded + zeros(i as nat),
        decreases pad - i,
    {
        out.push(0);
        i = i + 1;
        assert(out@ =~= unpadded + zeros(i as nat));
    }
    assert(out@ =~= old(out)@ + xdr_opaque(data@));
}

// -------------------------------------------------------------------- input

/// A message that is being decoded from front to back.
pub struct Input {
    data: Vec<u8>,
    pos: usize,
}

impl View for Input {
    type V = Seq<u8>;

    /// The bytes that have not been read yet.
    closed spec fn view(&self) -> Seq<u8> {
        self.data@.skip(self.pos as int)
    }
}

impl Input {
    #[verifier::type_invariant]
    spec fn within(self) -> bool {
        self.pos <= self.data@.len()
    }

    pub fn new(data: Vec<u8>) -> (input: Input)
        ensures
            input@ == data@,
    {
        let input = Input { data, pos: 0 };
        assert(input@ =~= data@);
        input
    }

    /// The bytes that have not been read yet.
    pub fn into_rest(self) -> (rest: Vec<u8>)
        ensures
            rest@ == self@,
    {
        proof {
            use_type_invariant(&self);
        }
        let Input { data, pos } = self;
        let mut data = data;
        data.split_off(pos)
    }

    pub fn read_u32(&mut self) -> (r: Result<u32, XdrError>)
        ensures
            reads(parse_u32(old(self)@), r, final(self)@),
    {
        proof {
            use_type_invariant(&*self);
        }
        let pos: usize = self.pos;
        let end: usize = self.data.len();
        if end - pos < 4 {
            return Err(XdrError::UnexpectedEof);
        }
        let n: u32 = front_u32(slice_subrange(self.data.as_slice(), pos, end));
        assert(self.data@.subrange(pos as int, end as int) =~= self@);
        assert(self.data@.skip(pos + 4) =~= self@.skip(4));
        self.pos = pos + 4;
        Ok(n)
    }

    pub fn read_u64(&mut self) -> (r: Result<u64, XdrError>)
        ensures
            reads(parse_u64(old(self)@), r, final(self)@),
    {
        proof {
            use_type_invariant(&*self);
        }
        let pos: usize = self.pos;
        let end: usize = self.data.len();
        if end - pos < 8 {
            return Err(XdrError::UnexpectedEof);
        }
        let n: u64 = front_u64(slice_subrange(self.data.as_slice(), pos, end));
        assert(self.data@.subrange(pos as int, end as int) =~= self@);
        assert(self.data@.skip(pos + 8) =~= self@.skip(8));
        self.pos = pos + 8;
        Ok(n)
    }

    pub fn read_bool(&mut self) -> (r: Result<bool, XdrError>)
        ensures
            reads(parse_bool(old(self)@), r, final(self)@),
    {
        let n: u32 = self.read_u32()?;
        Ok(n > 0)
    }

    pub fn read_opaque(&mut self) -> (r: Result<Vec<u8>, XdrError>)
        ensures
            reads_view(parse_opaque(old(self)@), r, final(self)@),
    {
        let len: u32 = self.read_u32()?;
        let ghost rest = self@;
        proof {
            use_type_invariant(&*self);
        }
        let pad: u32 = (4 - len % 4) % 4;
        let pos: usize = self.pos;
        let left: usize = self.data.len() - pos;
        if left < len as usize || left - (len as usize) < pad as usize {
            return Err(XdrError::UnexpectedEof);
        }
        let end: usize = pos + len as usize;
        let data = vstd::slice::slice_to_vec(slice_subrange(self.data.as_slice(), pos, end));
        assert(data@ =~= rest.take(len as int));
        assert(self.data@.skip(end + pad) =~= rest.skip(len + pad));
        self.pos = end + pad as usize;
        Ok(data)
    }

    pub fn read_opaque8(&mut self) -> (r: Result<[u8; 8], XdrError>)
        ensures
            reads_view(parse_opaque8(old(self)@), r, final(self)@),
    {
        proof {
            use_type_invariant(&*self);
        }
        let pos: usize = self.pos;
        if self.data.len() - pos < 8 {
            return Err(XdrError::UnexpectedEof);
        }
        let bytes = [
            self.data[pos],
            self.data[pos + 1],
            self.data[pos + 2],
            self.data[pos + 3],
            self.data[pos + 4],
            self.data[pos + 5],
            self.data[pos + 6],
            self.data[pos + 7],
        ];
        assert(bytes@ =~= self@.take(8));
        assert(self.data@.skip(pos + 8) =~= self@.skip(8));
        self.pos = pos + 8;
        Ok(bytes)
    }
}

// --------------------------------------------------------------------- laws

/// Concatenation is associative.
pub proof fn concat_assoc(a: Seq<u8>, b: Seq<u8>, c: Seq<u8>)
    ensures
        (a + b) + c == a + (b + c),
{
    assert((a + b) + c =~= a + (b + c));
}

/// Every encoded item fills a multiple of four bytes.
pub proof fn lemma_encoded_lengths(n: u32, m: u64, b: bool, data: Seq<u8>)
    ensures
        xdr_u32(n).len() == 4,
        xdr_u64(m).len() == 8,
        xdr_bool(b).len() == 4,
        xdr_opaque(data).len() == 4 + data.len() + padding(data.len()),
        xdr_opaque(data).len() % 4 == 0,
{
    broadcast use group_xdr_lengths;

    lemma_padding_fills_up(data.len());
}

proof fn lemma_padding_fills_up(len: nat)
    ensures
        (4 + len + padding(len)) % 4 == 0,
{
    let past = len % 4;
    assert(padding(len) == if past == 0 {
        0
    } else {
        4 - past
    });
}

pub broadcast proof fn xdr_u32_length(n: u32)
    ensures
        #[trigger] xdr_u32(n).len() == 4,
{
    reveal(xdr_u32);
}

pub broadcast proof fn xdr_u64_length(n: u64)
    ensures
        #[trigger] xdr_u64(n).len() == 8,
{
    reveal(xdr_u32);
    reveal(xdr_u64);
}

pub broadcast group group_xdr_lengths {
    xdr_u32_length,
    xdr_u64_length,
}

/// Reading gives back the number that was written, and what follows it.
pub broadcast proof fn u32_round_trip(n: u32, rest: Seq<u8>)
    ensures
        #[trigger] parse_u32(xdr_u32(n) + rest) == Ok::<(u32, Seq<u8>), XdrError>((n, rest)),
{
    reveal(xdr_u32);
    reveal(u32_at_front);
    let s = xdr_u32(n) + rest;
    assert(n == n / 0x100_0000 * 0x100_0000 + n / 0x1_0000 % 0x100 * 0x1_0000 + n / 0x100 % 0x100
        * 0x100 + n % 0x100);
    assert(s.skip(4) =~= rest);
}

/// Reading gives back the number that was written, and what follows it.
pub broadcast proof fn u64_round_trip(n: u64, rest: Seq<u8>)
    ensures
        #[trigger] parse_u64(xdr_u64(n) + rest) == Ok::<(u64, Seq<u8>), XdrError>((n, rest)),
{
    broadcast use group_xdr_lengths;

    reveal(xdr_u64);
    reveal(u64_at_front);
    let high = (n / 0x1_0000_0000) as u32;
    let low = (n % 0x1_0000_0000) as u32;
    let s = xdr_u64(n) + rest;
    assert(s =~= xdr_u32(high) + (xdr_u32(low) + rest));
    u32_round_trip(high, xdr_u32(low) + rest);
    u32_round_trip(low, rest);
    assert(s.skip(4) =~= xdr_u32(low) + rest);
    assert(s.skip(8) =~= rest);
}

/// Reading gives back the boolean that was written, and what follows it.
pub broadcast proof fn bool_round_trip(b: bool, rest: Seq<u8>)
    ensures
        #[trigger] parse_bool(xdr_bool(b) + rest) == Ok::<(bool, Seq<u8>), XdrError>((b, rest)),
{
    u32_round_trip(
        if b {
            1
        } else {
            0
        },
        rest,
    );
}

/// Reading gives back the bytes that were written, and what follows them.
pub broadcast proof fn opaque_round_trip(data: Seq<u8>, rest: Seq<u8>)
    requires
        data.len() <= u32::MAX,
    ensures
        #[trigger] parse_opaque(xdr_opaque(data) + rest) == Ok::<(Seq<u8>, Seq<u8>), XdrError>(
            (data, rest),
        ),
{
    broadcast use group_xdr_lengths;

    let len = data.len() as u32;
    let behind = data + zeros(padding(data.len())) + rest;
    assert(xdr_opaque(data) + rest =~= xdr_u32(len) + behind);
    u32_round_trip(len, behind);
    assert(behind.take(len as int) =~= data);
    assert(behind.skip(len + padding(len as nat)) =~= rest);
}

/// Reading gives back the eight bytes that were written, and what follows them.
pub broadcast proof fn opaque8_round_trip(data: Seq<u8>, rest: Seq<u8>)
    requires
        data.len() == 8,
    ensures
        #[trigger] parse_opaque8(data + rest) == Ok::<(Seq<u8>, Seq<u8>), XdrError>((data, rest)),
{
    assert((data + rest).take(8) =~= data);
    assert((data + rest).skip(8) =~= rest);
}

/// Four bytes are read as a number, the most significant first.
pub proof fn lemma_numbers_are_big_endian(a: u8, b: u8, c: u8, d: u8, rest: Seq<u8>)
    ensures
        parse_u32(seq![a, b, c, d] + rest) matches Ok((n, behind)) && n == a * 0x100_0000 + b
            * 0x1_0000 + c * 0x100 + d && behind == rest,
{
    reveal(u32_at_front);
    let s = seq![a, b, c, d] + rest;
    assert(s.skip(4) =~= rest);
    assert(s[0] == a && s[1] == b && s[2] == c && s[3] == d);
}

/// What is read of a number was there in front, and nothing else is taken; only
/// where less is there than a number fills is there an error.
pub proof fn lemma_numbers_are_there(s: Seq<u8>)
    ensures
        parse_u32(s) is Err <==> s.len() < 4,
        parse_u32(s) matches Ok((n, rest)) ==> s == xdr_u32(n) + rest,
        parse_u64(s) is Err <==> s.len() < 8,
        parse_u64(s) matches Ok((n, rest)) ==> s == xdr_u64(n) + rest,
{
    if s.len() >= 4 {
        lemma_number_is_there(s);
    }
    if s.len() >= 8 {
        broadcast use group_xdr_lengths;

        lemma_number_is_there(s);
        lemma_number_is_there(s.skip(4));
        reveal(xdr_u64);
        reveal(u64_at_front);
        let high = u32_at_front(s);
        let low = u32_at_front(s.skip(4));
        let n = u64_at_front(s);
        assert(n / 0x1_0000_0000 == high && n % 0x1_0000_0000 == low);
        assert(s.skip(4).skip(4) =~= s.skip(8));
        assert(s =~= xdr_u32(high) + (xdr_u32(low) + s.skip(8)));
        concat_assoc(xdr_u32(high), xdr_u32(low), s.skip(8));
    }
}

proof fn lemma_number_is_there(s: Seq<u8>)
    requires
        s.len() >= 4,
    ensures
        s == xdr_u32(u32_at_front(s)) + s.skip(4),
{
    reveal(xdr_u32);
    reveal(u32_at_front);
    let n = u32_at_front(s);
    assert(n == s[0] * 0x100_0000 + s[1] * 0x1_0000 + s[2] * 0x100 + s[3]);
    assert(n / 0x100_0000 == s[0]);
    assert(n / 0x1_0000 == s[0] * 0x100 + s[1]);
    assert(n / 0x100 == s[0] * 0x1_0000 + s[1] * 0x100 + s[2]);
    assert(n / 0x1_0000 % 0x100 == s[1]);
    assert(n / 0x100 % 0x100 == s[2]);
    assert(n % 0x100 == s[3]);
    assert(s =~= xdr_u32(n) + s.skip(4));
}

/// What is read of bytes was there: a number, that many bytes, and what fills them
/// up to a multiple of four. A flag is set if the number is not zero.
pub proof fn lemma_bytes_are_there(s: Seq<u8>)
    ensures
        parse_opaque(s) matches Ok((data, rest)) ==> {
            &&& parse_u32(s) matches Ok((n, behind))
            &&& n == data.len()
            &&& behind.len() >= data.len()
            &&& data == behind.take(data.len() as int)
            &&& rest == behind.skip(((data.len() + 3) / 4 * 4) as int)
        },
        parse_opaque(s) is Err <==> (parse_u32(s) matches Ok((n, behind)) ==> behind.len() < (n + 3)
            / 4 * 4),
        parse_bool(s) matches Ok((b, rest)) ==> (parse_u32(s) matches Ok((n, behind)) && (b <==> n
            != 0) && rest == behind),
        parse_opaque8(s) matches Ok((data, rest)) ==> data.len() == 8 && s == data + rest,
{
    match parse_u32(s) {
        Ok((n, behind)) => {
            let len = n as nat;
            let past = len % 4;
            assert(len == len / 4 * 4 + past);
            assert(padding(len) == if past == 0 {
                0
            } else {
                4 - past
            });
            assert((len + 3) / 4 == if past == 0 {
                len / 4
            } else {
                len / 4 + 1
            });
        },
        Err(_) => {},
    }
    if parse_opaque8(s) is Ok {
        let (data, rest) = parse_opaque8(s)->Ok_0;
        assert(s =~= data + rest);
    }
}

/// Bytes are written behind their number, one after the other, and then zeros.
pub proof fn lemma_bytes_are_written_in_order(data: Seq<u8>, i: int)
    requires
        data.len() <= u32::MAX,
        0 <= i < xdr_opaque(data).len() - 4,
    ensures
        xdr_opaque(data).take(4) == xdr_u32(data.len() as u32),
        i < data.len() ==> xdr_opaque(data)[4 + i] == data[i],
        i >= data.len() ==> xdr_opaque(data)[4 + i] == 0,
        xdr_opaque(data).len() < data.len() + 8,
{
    broadcast use group_xdr_lengths;

    assert(xdr_opaque(data).take(4) =~= xdr_u32(data.len() as u32));
}

} // verus!
