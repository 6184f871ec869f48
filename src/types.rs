use vstd::prelude::*;
use crate::error::{fatal_at, Fault, ParserError, ParserErrorType};
use crate::indexed_input::{be16, IByteInput, PResult};

verus! {

/// The TYPE of a resource record.
#[derive(Debug, Clone, Copy, PartialEq, Eq, Structural)]
pub enum RecordType {
    /// A host address
    A,
    /// An authoritative name server
    NS,
    /// A mail destination (obsolete)
    MD,
    /// A mail forwarder (obsolete)
    MF,
    /// The canonical name for an alias
    CNAME,
    /// Marks the start of a zone of authority
    SOA,
    /// A mailbox domain name
    MB,
    /// A mail group member
    MG,
    /// A mail rename domain name
    MR,
    /// A null RR
    NULL,
    /// A well known service description
    WKS,
    /// A domain name pointer
    PTR,
    /// Host information
    HINFO,
    /// Mailbox or mail list information
    MINFO,
    /// Mail exchange
    MX,
    /// Text strings
    TXT,
    /// Responsible person
    RP,
    /// AFS database location
    AFSDB,
    /// X.25 PSDN address
    X25,
    /// ISDN address
    ISDN,
    /// Route through
    RT,
    NSAP,
    #[allow(non_camel_case_types)]
    NSAP_PTR,
    SIG,
    KEY,
    PX,
    GPOS,
    AAAA,
    LOC,
    NXT,
    EID,
    NIMLOC,
    SRV,
    ATMA,
    NAPTR,
    KX,
    CERT,
    A6,
    DNAME,
    SINK,
    OPT,
    APL,
    DS,
    SSHFP,
    NSEC,
    DNSKEY,
    DHCID,
    NSEC3,
    NSEC3PARAM,
    TLSA,
    SMIMEA,
    HIP,
    NINFO,
    RKEY,
    TALINK,
    CDS,
    CDNSKEY,
    OPENPGPKEY,
    CSYNC,
    ZONEMD,
    SVCB,
    /// A code with no name here
    Unknown(u16),
}

/// The record type that wire code `v` stands for.
pub open spec fn type_of(v: u16) -> RecordType {
    match v {
        1 => RecordType::A,
        2 => RecordType::NS,
        3 => RecordType::MD,
        4 => RecordType::MF,
        5 => RecordType::CNAME,
        6 => RecordType::SOA,
        7 => RecordType::MB,
        8 => RecordType::MG,
        9 => RecordType::MR,
        10 => RecordType::NULL,
        11 => RecordType::WKS,
        12 => RecordType::PTR,
        13 => RecordType::HINFO,
        14 => RecordType::MINFO,
        15 => RecordType::MX,
        16 => RecordType::TXT,
        17 => RecordType::RP,
        18 => RecordType::AFSDB,
        19 => RecordType::X25,
        20 => RecordType::ISDN,
        21 => RecordType::RT,
        v => RecordType::Unknown(v),
    }
}

impl From<u16> for RecordType {
    fn from(value: u16) -> RecordType {
        match value {
            1 => RecordType::A,
            2 => RecordType::NS,
            3 => RecordType::MD,
            4 => RecordType::MF,
            5 => RecordType::CNAME,
            6 => RecordType::SOA,
            7 => RecordType::MB,
            8 => RecordType::MG,
            9 => RecordType::MR,
            10 => RecordType::NULL,
            11 => RecordType::WKS,
            12 => RecordType::PTR,
            13 => RecordType::HINFO,
            14 => RecordType::MINFO,
            15 => RecordType::MX,
            16 => RecordType::TXT,
            17 => RecordType::RP,
            18 => RecordType::AFSDB,
            19 => RecordType::X25,
            20 => RecordType::ISDN,
            21 => RecordType::RT,
            v => RecordType::Unknown(v),
        }
    }
}

impl vstd::std_specs::convert::FromSpecImpl<u16> for RecordType {
    open spec fn obeys_from_spec() -> bool {
        true
    }

    open spec fn from_spec(v: u16) -> RecordType {
        type_of(v)
    }
}

/// Decoding a TYPE at `p`: the type, or the fault for an unrecognized code.
pub open spec fn type_result(b: Seq<u8>, p: int) -> Result<RecordType, Fault> {
    let v = be16(b, p);
    if type_of(v) is Unknown {
        Err(fatal_at(p as usize, ParserErrorType::UnrecognizedRecordType(v)))
    } else {
        Ok(type_of(v))
    }
}

impl RecordType {
    /// Decodes a 16-bit TYPE; a code outside the table is a fatal fault.
    pub fn parse<'a>(i: IByteInput<'a>) -> (r: PResult<'a, RecordType>)
        requires
            i.inside(),
        ensures
            i.limit() - i.pos() < 2 ==> r == Err::<(IByteInput, RecordType), Fault>(crate::error::eof_at(i.pos() as usize)),
            i.limit() - i.pos() >= 2 ==> match type_result(i.bytes(), i.pos()) {
                Ok(t) => r is Ok && r->Ok_0.1 == t && r->Ok_0.0.pos() == i.pos() + 2 && r->Ok_0.0.same_region(i),
                Err(e) => r == Err::<(IByteInput, RecordType), Fault>(e),
            },
    {
        let (ir, v) = i.be_u16()?;
        match RecordType::from(v) {
            RecordType::Unknown(v) => Err(Fault::Failure(ParserError {
                position: i.idx(),
                kind: None,
                err_type: Some(ParserErrorType::UnrecognizedRecordType(v)),
            })),
            t => Ok((ir, t)),
        }
    }
}

} // verus!
