use vstd::prelude::*;
use crate::error::{fatal_at, Fault, ParserError, ParserErrorType};
use crate::indexed_input::{be16, IByteInput, PResult};

verus! {

/// The CLASS of a resource record.
#[derive(Debug, Clone, Copy, PartialEq, Eq, Structural)]
pub enum RecordClass {
    /// Internet
    IN,
    /// CSNET (obsolete)
    CS,
    /// CHAOS
    CH,
    /// Hesiod
    HS,
    /// NONE, used in dynamic updates
    NONE,
    /// A code with no name here
    Unknown(u16),
}

/// The QCLASS of a question: any CLASS, or the wildcard.
#[derive(Debug, Clone, Copy, PartialEq, Eq, Structural)]
pub enum RecordQClass {
    RecordClass(RecordClass),
    /// "*": any class
    Any,
}

/// The class that wire code `v` stands for.
pub open spec fn class_of(v: u16) -> RecordClass {
    match v {
        1 => RecordClass::IN,
        2 => RecordClass::CS,
        3 => RecordClass::CH,
        4 => RecordClass::HS,
        254 => RecordClass::NONE,
        v => RecordClass::Unknown(v),
    }
}

/// The question class that wire code `v` stands for.
pub open spec fn qclass_of(v: u16) -> RecordQClass {
    if v == 255 { RecordQClass::Any } else { RecordQClass::RecordClass(class_of(v)) }
}

impl From<u16> for RecordClass {
    fn from(value: u16) -> RecordClass {
        match value {
            1 => RecordClass::IN,
            2 => RecordClass::CS,
            3 => RecordClass::CH,
            4 => RecordClass::HS,
            254 => RecordClass::NONE,
            v => RecordClass::Unknown(v),
        }
    }
}

impl vstd::std_specs::convert::FromSpecImpl<u16> for RecordClass {
    open spec fn obeys_from_spec() -> bool {
        true
    }

    open spec fn from_spec(v: u16) -> RecordClass {
        class_of(v)
    }
}

impl From<u16> for RecordQClass {
    fn from(value: u16) -> RecordQClass {
        match value {
            255 => RecordQClass::Any,
            v => RecordQClass::RecordClass(RecordClass::from(v)),
        }
    }
}

impl vstd::std_specs::convert::FromSpecImpl<u16> for RecordQClass {
    open spec fn obeys_from_spec() -> bool {
        true
    }

    open spec fn from_spec(v: u16) -> RecordQClass {
        qclass_of(v)
    }
}

/// Decoding a CLASS at `p`: the class, or the fault for an unrecognized code.
pub open spec fn class_result(b: Seq<u8>, p: int) -> Result<RecordClass, Fault> {
    let v = be16(b, p);
    if class_of(v) is Unknown {
        Err(fatal_at(p as usize, ParserErrorType::UnrecognizedClassCode(v)))
    } else {
        Ok(class_of(v))
    }
}

impl RecordClass {
    /// Decodes a 16-bit CLASS; a code outside the table is a fatal fault.
    pub fn parse<'a>(i: IByteInput<'a>) -> (r: PResult<'a, RecordClass>)
        requires
            i.inside(),
        ensures
            i.limit() - i.pos() < 2 ==> r == Err::<(IByteInput, RecordClass), Fault>(crate::error::eof_at(i.pos() as usize)),
            i.limit() - i.pos() >= 2 ==> match class_result(i.bytes(), i.pos()) {
                Ok(c) => r is Ok && r->Ok_0.1 == c && r->Ok_0.0.pos() == i.pos() + 2 && r->Ok_0.0.same_region(i),
                Err(e) => r == Err::<(IByteInput, RecordClass), Fault>(e),
            },
    {
        let (ir, v) = i.be_u16()?;
        match RecordClass::from(v) {
            RecordClass::Unknown(v) => Err(Fault::Failure(ParserError {
                position: i.idx(),
                kind: None,
                err_type: Some(ParserErrorType::UnrecognizedClassCode(v)),
            })),
            c => Ok((ir, c)),
        }
    }
}

impl RecordQClass {
    /// Decodes a 16-bit QCLASS; 255 is the wildcard, and a code outside the
    /// class table passes through as `RecordClass(Unknown(code))`.
    pub fn parse<'a>(i: IByteInput<'a>) -> (r: PResult<'a, RecordQClass>)
        requires
            i.inside(),
        ensures
            i.limit() - i.pos() < 2 ==> r == Err::<(IByteInput, RecordQClass), Fault>(crate::error::eof_at(i.pos() as usize)),
            i.limit() - i.pos() >= 2 ==> r is Ok && r->Ok_0.1 == qclass_of(be16(i.bytes(), i.pos()))
                && r->Ok_0.0.pos() == i.pos() + 2 && r->Ok_0.0.same_region(i),
    {
        let (ir, v) = i.be_u16()?;
        Ok((ir, RecordQClass::from(v)))
    }
}

} // verus!
