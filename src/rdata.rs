use vstd::prelude::*;
use crate::error::{eof_at, Fault};
use crate::indexed_input::{be32, IByteInput, PResult};
use crate::name::{name_result, Name};
use crate::utils::{ttl_value, TTL};

verus! {

/// The RDATA of an A record: a 32-bit IPv4 address.
#[derive(Debug, Clone, Copy, PartialEq, Eq, Structural)]
pub struct A(u32);

impl A {
    pub closed spec fn addr(&self) -> u32 {
        self.0
    }

    /// The address, most significant octet first.
    pub fn address(&self) -> (r: u32)
        ensures
            r == self.addr(),
    {
        self.0
    }

    /// Decodes the 4-byte address.
    pub fn parse<'a>(i: IByteInput<'a>) -> (r: PResult<'a, A>)
        requires
            i.inside(),
        ensures
            i.limit() - i.pos() >= 4 ==> r is Ok && r->Ok_0.1.addr() == be32(i.bytes(), i.pos())
                && r->Ok_0.0.pos() == i.pos() + 4 && r->Ok_0.0.same_region(i),
            i.limit() - i.pos() < 4 ==> r == Err::<(IByteInput, A), Fault>(eof_at(i.pos() as usize)),
    {
        let (i, v) = i.be_u32()?;
        Ok((i, A(v)))
    }
}

/// What an SOA RDATA holds, over the labels of its two names.
pub struct SoaView {
    pub mname: Seq<Seq<u8>>,
    pub rname: Seq<Seq<u8>>,
    pub serial: u32,
    pub refresh: u32,
    pub retry: u32,
    pub expire: u32,
    pub minimum: u32,
}

/// The bytes in the whole 32-bit words among the first `n < 20` bytes.
pub open spec fn whole_words(n: int) -> int {
    if n < 4 { 0 } else if n < 8 { 4 } else if n < 12 { 8 } else if n < 16 { 12 } else { 16 }
}

/// Decoding SOA RDATA at `p` (readable up to `end`): two names, then five
/// 32-bit integers, the last a TTL. A short tail fails at the first integer
/// that does not fit.
pub open spec fn soa_result(b: Seq<u8>, end: int, p: int) -> Result<(SoaView, int), Fault> {
    match name_result(b, end, p) {
        Err(e) => Err(e),
        Ok((mname, after_mname)) => match name_result(b, end, after_mname) {
            Err(e) => Err(e),
            Ok((rname, q)) => if end - q < 20 {
                Err(eof_at((q + whole_words(end - q)) as usize))
            } else {
                Ok((SoaView {
                    mname,
                    rname,
                    serial: be32(b, q),
                    refresh: be32(b, q + 4),
                    retry: be32(b, q + 8),
                    expire: be32(b, q + 12),
                    minimum: ttl_value(be32(b, q + 16)),
                }, q + 20))
            },
        },
    }
}

/// The RDATA of an SOA record: the zone's start of authority.
pub struct SOA {
    mname: Name,
    rname: Name,
    serial: u32,
    refresh: u32,
    retry: u32,
    expire: u32,
    minimum: TTL,
}

impl SOA {
    pub closed spec fn view(&self) -> SoaView {
        SoaView {
            mname: self.mname.labels(),
            rname: self.rname.labels(),
            serial: self.serial,
            refresh: self.refresh,
            retry: self.retry,
            expire: self.expire,
            minimum: self.minimum.secs(),
        }
    }

    pub closed spec fn wf(&self) -> bool {
        self.mname.wf() && self.rname.wf()
    }

    /// The name server that was the primary source of data for the zone.
    pub fn mname(&self) -> (r: &Name)
        requires
            self.wf(),
        ensures
            r.labels() == self.view().mname,
            r.wf(),
    {
        &self.mname
    }

    /// The mailbox of the person responsible for the zone.
    pub fn rname(&self) -> (r: &Name)
        requires
            self.wf(),
        ensures
            r.labels() == self.view().rname,
            r.wf(),
    {
        &self.rname
    }

    /// The version number of the zone.
    pub fn serial(&self) -> (r: u32)
        ensures
            r == self.view().serial,
    {
        self.serial
    }

    /// Seconds before the zone should be refreshed.
    pub fn refresh(&self) -> (r: u32)
        ensures
            r == self.view().refresh,
    {
        self.refresh
    }

    /// Seconds before a failed refresh should be retried.
    pub fn retry(&self) -> (r: u32)
        ensures
            r == self.view().retry,
    {
        self.retry
    }

    /// Seconds after which the zone is no longer authoritative.
    pub fn expire(&self) -> (r: u32)
        ensures
            r == self.view().expire,
    {
        self.expire
    }

    /// The minimum TTL to export with any record of the zone.
    pub fn minimum(&self) -> (r: TTL)
        ensures
            r.secs() == self.view().minimum,
    {
        self.minimum
    }

    /// Decodes SOA RDATA.
    pub fn parse<'a>(i: IByteInput<'a>) -> (r: PResult<'a, SOA>)
        requires
            i.inside(),
        ensures
            match soa_result(i.bytes(), i.limit(), i.pos()) {
                Ok((v, next)) => r is Ok && r->Ok_0.1.view() == v && r->Ok_0.1.wf()
                    && r->Ok_0.0.pos() == next && r->Ok_0.0.same_region(i),
                Err(e) => r == Err::<(IByteInput, SOA), Fault>(e),
            },
    {
        let (i, mname) = Name::parse(i)?;
        let (i, rname) = Name::parse(i)?;
        let (i, (serial, refresh, retry, expire, minimum)) = SOA::parse_timers(i)?;
        Ok((i, SOA { mname, rname, serial, refresh, retry, expire, minimum }))
    }

    /// Decodes the four 32-bit integers and the TTL that follow the names.
    fn parse_timers<'a>(i: IByteInput<'a>) -> (r: PResult<'a, (u32, u32, u32, u32, TTL)>)
        requires
            i.inside(),
        ensures
            i.limit() - i.pos() < 20 ==> r == Err::<(IByteInput, (u32, u32, u32, u32, TTL)), Fault>(
                eof_at((i.pos() + whole_words(i.limit() - i.pos())) as usize)),
            i.limit() - i.pos() >= 20 ==> r is Ok && r->Ok_0.0.pos() == i.pos() + 20 && r->Ok_0.0.same_region(i)
                && r->Ok_0.1.0 == be32(i.bytes(), i.pos())
                && r->Ok_0.1.1 == be32(i.bytes(), i.pos() + 4)
                && r->Ok_0.1.2 == be32(i.bytes(), i.pos() + 8)
                && r->Ok_0.1.3 == be32(i.bytes(), i.pos() + 12)
                && r->Ok_0.1.4.secs() == ttl_value(be32(i.bytes(), i.pos() + 16)),
    {
        let (i, serial) = i.be_u32()?;
        let (i, refresh) = i.be_u32()?;
        let (i, retry) = i.be_u32()?;
        let (i, expire) = i.be_u32()?;
        let (i, minimum) = TTL::parse(i)?;
        Ok((i, (serial, refresh, retry, expire, minimum)))
    }
}

/// The RDATA of a record, by (type, class).
pub enum RecordData {
    A(A),
    SOA(SOA),
}

/// What a record's RDATA holds.
pub enum RDataView {
    A(u32),
    SOA(SoaView),
}

impl RecordData {
    pub open spec fn view(&self) -> RDataView {
        match self {
            RecordData::A(a) => RDataView::A(a.addr()),
            RecordData::SOA(s) => RDataView::SOA(s.view()),
        }
    }

    pub open spec fn wf(&self) -> bool {
        match self {
            RecordData::A(_) => true,
            RecordData::SOA(s) => s.wf(),
        }
    }
}

} // verus!
