use vstd::prelude::*;
use crate::class::{class_result, RecordClass};
use crate::error::{eof_at, fatal_at, Fault, ParserError, ParserErrorType};
use crate::indexed_input::{be16, be32, IByteInput, PResult};
use crate::name::{name_result, Name};
use crate::rdata::{soa_result, RDataView, RecordData, A, SOA};
use crate::types::{type_result, RecordType};
use crate::utils::{ttl_value, SIGN_MASK};

verus! {

/// A resource record: owner name, TYPE, CLASS, TTL and RDATA.
pub struct Record {
    pub name: Name,
    pub rtype: RecordType,
    pub class: RecordClass,
    /// Seconds the record may be cached; 0 when the wire value had its top bit set.
    pub ttl: u32,
    pub rdata: RecordData,
}

/// What a record holds, with its owner name as labels.
pub struct RecordView {
    pub name: Seq<Seq<u8>>,
    pub rtype: RecordType,
    pub class: RecordClass,
    pub ttl: u32,
    pub rdata: RDataView,
}

impl Record {
    pub open spec fn view(&self) -> RecordView {
        RecordView {
            name: self.name.labels(),
            rtype: self.rtype,
            class: self.class,
            ttl: self.ttl,
            rdata: self.rdata.view(),
        }
    }

    pub open spec fn wf(&self) -> bool {
        self.name.wf() && self.name.fqdn() && self.rdata.wf()
    }
}

/// Decoding the RDATA of a record of type `t` and class `c`, which lies in
/// `b[p..rend]`. Only A records of class IN and SOA records of any class are
/// decoded; any other pair is a fatal fault at `p`.
pub open spec fn rdata_result(b: Seq<u8>, p: int, rend: int, t: RecordType, c: RecordClass) -> Result<RDataView, Fault> {
    if t is A && c is IN {
        if rend - p < 4 { Err(eof_at(p as usize)) } else { Ok(RDataView::A(be32(b, p))) }
    } else if t is SOA {
        match soa_result(b, rend, p) {
            Ok((v, _)) => Ok(RDataView::SOA(v)),
            Err(e) => Err(e),
        }
    } else {
        Err(fatal_at(p as usize, ParserErrorType::UnimplementedRecordData { rtype: t, class: c }))
    }
}

/// Decoding the RDLENGTH and RDATA at `p` (readable up to `end`): the RDATA
/// and the position after it.
pub open spec fn rdata_field_result(b: Seq<u8>, end: int, p: int, t: RecordType, c: RecordClass) -> Result<(RDataView, int), Fault> {
    if end - p < 2 {
        Err(eof_at(p as usize))
    } else {
        let len = be16(b, p) as int;
        let q = p + 2;
        if end - q < len {
            Err(eof_at(q as usize))
        } else {
            match rdata_result(b, q, q + len, t, c) {
                Ok(v) => Ok((v, q + len)),
                Err(e) => Err(e),
            }
        }
    }
}

/// Decoding a resource record at `p` (readable up to `end`): owner name,
/// TYPE, CLASS, TTL, RDLENGTH and RDATA, in that order. The RDATA is read
/// only within its RDLENGTH; the record ends after it.
pub open spec fn record_result(b: Seq<u8>, end: int, p: int) -> Result<(RecordView, int), Fault> {
    match name_result(b, end, p) {
        Err(e) => Err(e),
        Ok((name, at_type)) => if end - at_type < 2 {
            Err(eof_at(at_type as usize))
        } else {
            match type_result(b, at_type) {
                Err(e) => Err(e),
                Ok(t) => if end - (at_type + 2) < 2 {
                    Err(eof_at((at_type + 2) as usize))
                } else {
                    match class_result(b, at_type + 2) {
                        Err(e) => Err(e),
                        Ok(c) => if end - (at_type + 4) < 4 {
                            Err(eof_at((at_type + 4) as usize))
                        } else {
                            match rdata_field_result(b, end, at_type + 8, t, c) {
                                Err(e) => Err(e),
                                Ok((rdata, q)) => Ok((RecordView {
                                    name,
                                    rtype: t,
                                    class: c,
                                    ttl: ttl_value(be32(b, at_type + 4)),
                                    rdata,
                                }, q)),
                            }
                        }
                    }
                }
            }
        },
    }
}

impl Record {
    /// Decodes a 32-bit TTL, forcing 0 when the top bit is set.
    pub fn parse_ttl<'a>(i: IByteInput<'a>) -> (r: PResult<'a, u32>)
        requires
            i.inside(),
        ensures
            i.limit() - i.pos() >= 4 ==> r is Ok && r->Ok_0.1 == ttl_value(be32(i.bytes(), i.pos()))
                && r->Ok_0.0.pos() == i.pos() + 4 && r->Ok_0.0.same_region(i),
            i.limit() - i.pos() < 4 ==> r == Err::<(IByteInput, u32), Fault>(eof_at(i.pos() as usize)),
    {
        let (i, v) = i.be_u32()?;
        if v & SIGN_MASK == SIGN_MASK {
            Ok((i, 0))
        } else {
            Ok((i, v))
        }
    }

    /// Decodes RDLENGTH and the RDATA it bounds, by (type, class).
    pub fn parse_rdata<'a>(i: IByteInput<'a>, rtype: &RecordType, class: &RecordClass) -> (r: PResult<'a, RecordData>)
        requires
            i.inside(),
        ensures
            match rdata_field_result(i.bytes(), i.limit(), i.pos(), *rtype, *class) {
                Ok((v, next)) => r is Ok && r->Ok_0.1.view() == v && r->Ok_0.1.wf()
                    && r->Ok_0.0.pos() == next && r->Ok_0.0.same_region(i),
                Err(e) => r == Err::<(IByteInput, RecordData), Fault>(e),
            },
    {
        let (i, rd_length) = i.be_u16()?;
        let (i, rdata_buf) = i.take_split(rd_length as usize)?;
        let rdata = match (rtype, class) {
            (RecordType::A, RecordClass::IN) => RecordData::A(A::parse(rdata_buf)?.1),
            (RecordType::SOA, _) => RecordData::SOA(SOA::parse(rdata_buf)?.1),
            _ => {
                return Err(Fault::Failure(ParserError {
                    position: rdata_buf.idx(),
                    kind: None,
                    err_type: Some(ParserErrorType::UnimplementedRecordData { rtype: *rtype, class: *class }),
                }));
            },
        };
        Ok((i, rdata))
    }

    /// Decodes a resource record.
    pub fn parse<'a>(i: IByteInput<'a>) -> (r: PResult<'a, Record>)
        requires
            i.inside(),
        ensures
            match record_result(i.bytes(), i.limit(), i.pos()) {
                Ok((v, next)) => r is Ok && r->Ok_0.1.view() == v && r->Ok_0.1.wf()
                    && r->Ok_0.0.pos() == next && r->Ok_0.0.same_region(i),
                Err(e) => r == Err::<(IByteInput, Record), Fault>(e),
            },
    {
        let (i, name) = Name::parse(i)?;
        let (i, rtype) = RecordType::parse(i)?;
        let (i, class) = RecordClass::parse(i)?;
        let (i, ttl) = Record::parse_ttl(i)?;
        let (i, rdata) = Record::parse_rdata(i, &rtype, &class)?;
        Ok((i, Record { name, rtype, class, ttl, rdata }))
    }
}

} // verus!
