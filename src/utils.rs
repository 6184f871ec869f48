use vstd::prelude::*;
use crate::error::Fault;
use crate::indexed_input::{be32, IByteInput, PResult};

verus! {

/// A time-to-live value, as decoded from the wire.
#[derive(Debug, Clone, Copy, PartialEq, Eq, Structural)]
pub struct TTL(u32);

/// The top bit of a 32-bit TTL wire value.
pub const SIGN_MASK: u32 = 0x8000_0000;

/// The TTL that raw wire value `raw` stands for: 0 when its top bit is set
/// (RFC 2181, section 8), else the value itself.
pub open spec fn ttl_value(raw: u32) -> u32 {
    if raw & 0x8000_0000 == 0x8000_0000 { 0 } else { raw }
}

impl TTL {
    /// The number of seconds.
    pub closed spec fn secs(&self) -> u32 {
        self.0
    }

    /// Decodes a 32-bit TTL, forcing 0 when the top bit is set.
    pub fn parse<'a>(i: IByteInput<'a>) -> (r: PResult<'a, TTL>)
        requires
            i.inside(),
        ensures
            i.limit() - i.pos() >= 4 ==> r is Ok && r->Ok_0.1.secs() == ttl_value(be32(i.bytes(), i.pos()))
                && r->Ok_0.0.pos() == i.pos() + 4 && r->Ok_0.0.same_region(i),
            i.limit() - i.pos() < 4 ==> r == Err::<(IByteInput, TTL), Fault>(crate::error::eof_at(i.pos() as usize)),
    {
        let (i, v) = i.be_u32()?;
        if v & SIGN_MASK == SIGN_MASK {
            Ok((i, TTL(0)))
        } else {
            Ok((i, TTL(v)))
        }
    }
}

impl From<TTL> for u32 {
    fn from(ttl: TTL) -> u32 {
        ttl.0
    }
}

impl vstd::std_specs::convert::FromSpecImpl<TTL> for u32 {
    open spec fn obeys_from_spec() -> bool {
        true
    }

    open spec fn from_spec(ttl: TTL) -> u32 {
        ttl.secs()
    }
}

} // verus!
