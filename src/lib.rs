pub mod class;
pub mod error;
pub mod header;
pub mod indexed_input;
pub mod laws;
pub mod message;
pub mod name;
pub mod proxy;
pub mod rdata;
pub mod record;
pub mod traits;
pub mod types;
pub mod utils;

pub use class::{RecordClass, RecordQClass};
pub use error::{ErrorKind, Fault, ParserError, ParserErrorType};
pub use header::{take_bit, take_nibble, take_u16, Header, OpCode, RCode};
pub use indexed_input::{IBitInput, IByteInput, IndexedInput, PResult};
pub use message::{Message, Question};
pub use name::{Label, Name};
pub use proxy::{route, Route};
pub use rdata::{RecordData, A, SOA};
pub use record::Record;
pub use traits::Encode;
pub use types::RecordType;
pub use utils::TTL;
