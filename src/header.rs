use vstd::prelude::*;
use crate::error::{eof_at, Fault};
use crate::indexed_input::{be16, bit_at, bits_value, IBitInput, IByteInput, PResult};
use vstd::arithmetic::power2::{lemma2_to64, lemma_pow2_unfold, pow2};

verus! {

/// The response code of a message (IANA DNS RCODE registry, 4-bit header form).
#[derive(Debug, Clone, Copy, PartialEq, Eq, Structural)]
pub enum RCode {
    NoError,
    FormErr,
    ServFail,
    NXDomain,
    NotImp,
    Refused,
    YXDomain,
    YXRRSet,
    NXRRSet,
    NotAuth,
    NotZone,
    DSOTYPENI,
    BADSIGVERS,
    BADKEY,
    BADTIME,
    BADNAME,
    BADMODE,
    BADALG,
    BADTRUNC,
    BADCOOKIE,
    Unknown(u8),
}

/// The response code that wire value `v` stands for.
pub open spec fn rcode_of(v: u8) -> RCode {
    match v {
        0 => RCode::NoError,
        1 => RCode::FormErr,
        2 => RCode::ServFail,
        3 => RCode::NXDomain,
        4 => RCode::NotImp,
        5 => RCode::Refused,
        6 => RCode::YXDomain,
        7 => RCode::YXRRSet,
        8 => RCode::NXRRSet,
        9 => RCode::NotAuth,
        10 => RCode::NotZone,
        11 => RCode::DSOTYPENI,
        16 => RCode::BADSIGVERS,
        17 => RCode::BADKEY,
        18 => RCode::BADTIME,
        19 => RCode::BADNAME,
        20 => RCode::BADMODE,
        21 => RCode::BADALG,
        22 => RCode::BADTRUNC,
        23 => RCode::BADCOOKIE,
        other => RCode::Unknown(other),
    }
}

impl From<u8> for RCode {
    fn from(value: u8) -> RCode {
        match value {
            0 => RCode::NoError,
            1 => RCode::FormErr,
            2 => RCode::ServFail,
            3 => RCode::NXDomain,
            4 => RCode::NotImp,
            5 => RCode::Refused,
            6 => RCode::YXDomain,
            7 => RCode::YXRRSet,
            8 => RCode::NXRRSet,
            9 => RCode::NotAuth,
            10 => RCode::NotZone,
            11 => RCode::DSOTYPENI,
            16 => RCode::BADSIGVERS,
            17 => RCode::BADKEY,
            18 => RCode::BADTIME,
            19 => RCode::BADNAME,
            20 => RCode::BADMODE,
            21 => RCode::BADALG,
            22 => RCode::BADTRUNC,
            23 => RCode::BADCOOKIE,
            other => RCode::Unknown(other),
        }
    }
}

impl vstd::std_specs::convert::FromSpecImpl<u8> for RCode {
    open spec fn obeys_from_spec() -> bool {
        true
    }

    open spec fn from_spec(v: u8) -> RCode {
        rcode_of(v)
    }
}

/// The kind of query a message carries.
#[derive(Debug, Clone, Copy, PartialEq, Eq, Structural)]
pub enum OpCode {
    Query,
    IQuery,
    Status,
    Notify,
    Update,
    DSO,
    Unknown(u8),
}

/// The opcode that wire value `v` stands for.
pub open spec fn opcode_of(v: u8) -> OpCode {
    match v {
        0 => OpCode::Query,
        1 => OpCode::IQuery,
        2 => OpCode::Status,
        4 => OpCode::Notify,
        5 => OpCode::Update,
        6 => OpCode::DSO,
        other => OpCode::Unknown(other),
    }
}

impl From<u8> for OpCode {
    fn from(value: u8) -> OpCode {
        match value {
            0 => OpCode::Query,
            1 => OpCode::IQuery,
            2 => OpCode::Status,
            4 => OpCode::Notify,
            5 => OpCode::Update,
            6 => OpCode::DSO,
            other => OpCode::Unknown(other),
        }
    }
}

impl vstd::std_specs::convert::FromSpecImpl<u8> for OpCode {
    open spec fn obeys_from_spec() -> bool {
        true
    }

    open spec fn from_spec(v: u8) -> OpCode {
        opcode_of(v)
    }
}

/// The fixed 12-byte header of a message.
#[derive(Debug, Clone, Copy, PartialEq, Eq, Structural)]
pub struct Header {
    pub id: u16,
    pub qr: bool,
    pub opcode: OpCode,
    pub aa: bool,
    pub tc: bool,
    pub rd: bool,
    pub ra: bool,
    pub ad: bool,
    pub cd: bool,
    pub z: bool,
    pub rcode: RCode,
    pub qdcount: u16,
    pub ancount: u16,
    pub nscount: u16,
    pub arcount: u16,
}

/// The header held in `b[p..p + 12]`, field by field as the bits lie on the wire:
/// id, then the flag bytes, then the four counts in wire order
/// ANCOUNT, QDCOUNT, NSCOUNT, ARCOUNT.
pub open spec fn header_at(b: Seq<u8>, p: int) -> Header {
    Header {
        id: be16(b, p),
        qr: b[p + 2] & 0x80 != 0,
        opcode: opcode_of((b[p + 2] >> 3u8) & 0x0F),
        aa: b[p + 2] & 0x04 != 0,
        tc: b[p + 2] & 0x02 != 0,
        rd: b[p + 2] & 0x01 != 0,
        ra: b[p + 3] & 0x80 != 0,
        z: b[p + 3] & 0x40 != 0,
        ad: b[p + 3] & 0x20 != 0,
        cd: b[p + 3] & 0x10 != 0,
        rcode: rcode_of(b[p + 3] & 0x0F),
        ancount: be16(b, p + 4),
        qdcount: be16(b, p + 6),
        nscount: be16(b, p + 8),
        arcount: be16(b, p + 10),
    }
}

/// Where header decoding stops when only `n < 12` bytes remain: at the first
/// field whose bits run past the end (the flag bits of the third byte are read
/// one at a time, so a third byte alone is read whole).
pub open spec fn header_eof_offset(n: int) -> int {
    if n == 3 { 3 } else { n - n % 2 }
}

/// Reads one bit as a flag.
pub fn take_bit<'a>(i: IBitInput<'a>) -> (r: Result<(IBitInput<'a>, bool), Fault>)
    requires
        i.bit_wf(),
    ensures
        (i.limit() - i.pos()) * 8 >= 1 + i.bits() ==> r is Ok
            && r->Ok_0.1 == (bits_value(i.bytes(), i.pos(), i.bits(), 1) != 0)
            && r->Ok_0.0.pos() == i.pos() + (i.bits() + 1) / 8
            && r->Ok_0.0.bits() == (i.bits() + 1) % 8
            && r->Ok_0.0.same_region(i) && r->Ok_0.0.bit_wf(),
        (i.limit() - i.pos()) * 8 < 1 + i.bits() ==> r == Err::<(IBitInput, bool), Fault>(eof_at(i.rounded() as usize)),
{
    let (i, bits) = i.take(1)?;
    Ok((i, bits != 0))
}

/// Reads four bits.
pub fn take_nibble<'a>(i: IBitInput<'a>) -> (r: Result<(IBitInput<'a>, u8), Fault>)
    requires
        i.bit_wf(),
    ensures
        (i.limit() - i.pos()) * 8 >= 4 + i.bits() ==> r is Ok
            && r->Ok_0.1 == bits_value(i.bytes(), i.pos(), i.bits(), 4)
            && r->Ok_0.0.pos() == i.pos() + (i.bits() + 4) / 8
            && r->Ok_0.0.bits() == (i.bits() + 4) % 8
            && r->Ok_0.0.same_region(i) && r->Ok_0.0.bit_wf(),
        (i.limit() - i.pos()) * 8 < 4 + i.bits() ==> r == Err::<(IBitInput, u8), Fault>(eof_at(i.rounded() as usize)),
{
    let ghost b = i.bytes();
    let ghost (p, t) = (i.pos(), i.bits());
    let (i, bits) = i.take(4)?;
    proof {
        lemma_bits_value_bound(b, p, t, 4);
        lemma2_to64();
    }
    Ok((i, bits as u8))
}

/// Reads a 16-bit integer.
pub fn take_u16<'a>(i: IBitInput<'a>) -> (r: Result<(IBitInput<'a>, u16), Fault>)
    requires
        i.bit_wf(),
    ensures
        (i.limit() - i.pos()) * 8 >= 16 + i.bits() ==> r is Ok
            && r->Ok_0.1 == bits_value(i.bytes(), i.pos(), i.bits(), 16)
            && r->Ok_0.0.pos() == i.pos() + (i.bits() + 16) / 8
            && r->Ok_0.0.bits() == (i.bits() + 16) % 8
            && r->Ok_0.0.same_region(i) && r->Ok_0.0.bit_wf(),
        (i.limit() - i.pos()) * 8 < 16 + i.bits() ==> r == Err::<(IBitInput, u16), Fault>(eof_at(i.rounded() as usize)),
{
    i.take(16)
}

/// A bit is 0 or 1.
proof fn lemma_bit_at_le_one(b: Seq<u8>, i: int, t: int)
    ensures
        bit_at(b, i, t) <= 1,
{
    let x = b[i + t / 8];
    let s = (7 - t % 8) as u8;
    assert((x >> s) & 1u8 <= 1u8) by (bit_vector);
}

/// `n` bits hold a value below `2^n`.
proof fn lemma_bits_value_bound(b: Seq<u8>, i: int, t: int, n: nat)
    ensures
        bits_value(b, i, t, n) < pow2(n),
    decreases n,
{
    if n == 0 {
        lemma2_to64();
    } else {
        lemma_bits_value_bound(b, i, t, (n - 1) as nat);
        lemma_bit_at_le_one(b, i, t + n - 1);
        lemma_pow2_unfold(n);
    }
}

/// A byte is the sum of its bits.
proof fn lemma_byte_bits(x: u8)
    ensures
        x as int == ((x >> 7u8) & 1u8) as int * 128 + ((x >> 6u8) & 1u8) as int * 64
            + ((x >> 5u8) & 1u8) as int * 32 + ((x >> 4u8) & 1u8) as int * 16
            + ((x >> 3u8) & 1u8) as int * 8 + ((x >> 2u8) & 1u8) as int * 4
            + ((x >> 1u8) & 1u8) as int * 2 + ((x >> 0u8) & 1u8) as int,
{
    assert(x as u32 == ((x >> 7u8) & 1u8) as u32 * 128 + ((x >> 6u8) & 1u8) as u32 * 64
            + ((x >> 5u8) & 1u8) as u32 * 32 + ((x >> 4u8) & 1u8) as u32 * 16
            + ((x >> 3u8) & 1u8) as u32 * 8 + ((x >> 2u8) & 1u8) as u32 * 4
            + ((x >> 1u8) & 1u8) as u32 * 2 + ((x >> 0u8) & 1u8) as u32) by (bit_vector);
}

/// Sixteen bits from a byte boundary are the big-endian integer of two bytes.
proof fn lemma_bits16(b: Seq<u8>, i: int)
    ensures
        bits_value(b, i, 0, 16) == b[i] as int * 256 + b[i + 1] as int,
{
    reveal_with_fuel(bits_value, 17);
    lemma_byte_bits(b[i]);
    lemma_byte_bits(b[i + 1]);
}

/// The flag bits and the two nibbles of the second 16-bit word of the header.
proof fn lemma_flag_bits(b: Seq<u8>, i: int)
    ensures
        (bits_value(b, i, 0, 1) != 0) == (b[i] & 0x80 != 0),
        bits_value(b, i, 1, 4) == (b[i] >> 3u8) & 0x0F,
        (bits_value(b, i, 5, 1) != 0) == (b[i] & 0x04 != 0),
        (bits_value(b, i, 6, 1) != 0) == (b[i] & 0x02 != 0),
        (bits_value(b, i, 7, 1) != 0) == (b[i] & 0x01 != 0),
        (bits_value(b, i + 1, 0, 1) != 0) == (b[i + 1] & 0x80 != 0),
        (bits_value(b, i + 1, 1, 1) != 0) == (b[i + 1] & 0x40 != 0),
        (bits_value(b, i + 1, 2, 1) != 0) == (b[i + 1] & 0x20 != 0),
        (bits_value(b, i + 1, 3, 1) != 0) == (b[i + 1] & 0x10 != 0),
        bits_value(b, i + 1, 4, 4) == b[i + 1] & 0x0F,
{
    reveal_with_fuel(bits_value, 5);
    let x = b[i];
    let y = b[i + 1];
    assert((((x >> 7u8) & 1u8) != 0u8) == (x & 0x80u8 != 0u8)) by (bit_vector);
    assert((((x >> 2u8) & 1u8) != 0u8) == (x & 0x04u8 != 0u8)) by (bit_vector);
    assert((((x >> 1u8) & 1u8) != 0u8) == (x & 0x02u8 != 0u8)) by (bit_vector);
    assert((((x >> 0u8) & 1u8) != 0u8) == (x & 0x01u8 != 0u8)) by (bit_vector);
    assert((((y >> 7u8) & 1u8) != 0u8) == (y & 0x80u8 != 0u8)) by (bit_vector);
    assert((((y >> 6u8) & 1u8) != 0u8) == (y & 0x40u8 != 0u8)) by (bit_vector);
    assert((((y >> 5u8) & 1u8) != 0u8) == (y & 0x20u8 != 0u8)) by (bit_vector);
    assert((((y >> 4u8) & 1u8) != 0u8) == (y & 0x10u8 != 0u8)) by (bit_vector);
    assert(((((x >> 6u8) & 1u8) as u32 * 2 + ((x >> 5u8) & 1u8) as u32) * 2
        + ((x >> 4u8) & 1u8) as u32) * 2 + ((x >> 3u8) & 1u8) as u32
        == ((x >> 3u8) & 0x0Fu8) as u32) by (bit_vector);
    assert(((((y >> 3u8) & 1u8) as u32 * 2 + ((y >> 2u8) & 1u8) as u32) * 2
        + ((y >> 1u8) & 1u8) as u32) * 2 + ((y >> 0u8) & 1u8) as u32
        == (y & 0x0Fu8) as u32) by (bit_vector);
}

impl Header {
    /// The header of an empty standard query: every field zero.
    pub fn new() -> (r: Header)
        ensures
            r == header_at(seq![0u8; 12], 0),
    {
        proof {
            let z = 0u8;
            assert(z & 0x80 == 0 && z & 0x40 == 0 && z & 0x20 == 0 && z & 0x10 == 0 && z & 0x04 == 0
                && z & 0x02 == 0 && z & 0x01 == 0 && (z >> 3u8) & 0x0F == 0 && z & 0x0F == 0) by (bit_vector)
                requires z == 0u8;
        }
        Header {
            id: 0,
            qr: false,
            opcode: OpCode::Query,
            aa: false,
            tc: false,
            rd: false,
            ra: false,
            ad: false,
            cd: false,
            z: false,
            rcode: RCode::NoError,
            qdcount: 0,
            ancount: 0,
            nscount: 0,
            arcount: 0,
        }
    }

    /// Decodes the 12-byte header at the cursor, bit by bit in wire order.
    pub fn parse<'a>(i: IByteInput<'a>) -> (r: PResult<'a, Header>)
        requires
            i.inside(),
        ensures
            i.limit() - i.pos() >= 12 ==> r is Ok && r->Ok_0.1 == header_at(i.bytes(), i.pos())
                && r->Ok_0.0.pos() == i.pos() + 12 && r->Ok_0.0.same_region(i),
            i.limit() - i.pos() < 12 ==> r == Err::<(IByteInput, Header), Fault>(
                eof_at((i.pos() + header_eof_offset(i.limit() - i.pos())) as usize)),
    {
        let ghost b = i.bytes();
        let ghost p = i.pos();
        proof {
            lemma_bits16(b, p);
            lemma_flag_bits(b, p + 2);
            lemma_bits16(b, p + 4);
            lemma_bits16(b, p + 6);
            lemma_bits16(b, p + 8);
            lemma_bits16(b, p + 10);
        }
        let (i, id) = take_u16(i.to_bits())?;
        let (i, qr) = take_bit(i)?;
        let (i, opcode) = take_nibble(i)?;
        let (i, aa) = take_bit(i)?;
        let (i, tc) = take_bit(i)?;
        let (i, rd) = take_bit(i)?;
        let (i, ra) = take_bit(i)?;
        let (i, z) = take_bit(i)?;
        let (i, ad) = take_bit(i)?;
        let (i, cd) = take_bit(i)?;
        let (i, rcode) = take_nibble(i)?;
        let (i, ancount) = take_u16(i)?;
        let (i, qdcount) = take_u16(i)?;
        let (i, nscount) = take_u16(i)?;
        let (i, arcount) = take_u16(i)?;
        Ok((
            i.to_bytes(),
            Header {
                id,
                qr,
                opcode: OpCode::from(opcode),
                aa,
                tc,
                rd,
                ra,
                z,
                ad,
                cd,
                rcode: RCode::from(rcode),
                ancount,
                qdcount,
                nscount,
                arcount,
            },
        ))
    }
}

} // verus!
