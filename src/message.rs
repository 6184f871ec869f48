use vstd::prelude::*;
use crate::class::{qclass_of, RecordQClass};
use crate::error::{carried, eof_at, Fault, ParserError};
use crate::header::{header_at, header_eof_offset, Header};
use crate::indexed_input::{be16, IByteInput, IndexedInput, PResult};
use crate::name::{name_result, Name};
use crate::record::{record_result, Record, RecordView};
use crate::types::{type_result, RecordType};

verus! {

/// An entry of the question section: the name asked for, QTYPE and QCLASS.
pub struct Question {
    pub name: Name,
    pub qtype: RecordType,
    pub qclass: RecordQClass,
}

/// What a question holds, with its name as labels.
pub struct QuestionView {
    pub name: Seq<Seq<u8>>,
    pub qtype: RecordType,
    pub qclass: RecordQClass,
}

impl Question {
    pub open spec fn view(&self) -> QuestionView {
        QuestionView { name: self.name.labels(), qtype: self.qtype, qclass: self.qclass }
    }

    pub open spec fn wf(&self) -> bool {
        self.name.wf() && self.name.fqdn()
    }
}

/// Decoding a question at `p` (readable up to `end`): name, QTYPE, QCLASS.
/// An unrecognized QTYPE is fatal; a QCLASS outside the class table passes
/// through as `RecordClass(Unknown(code))`.
pub open spec fn question_result(b: Seq<u8>, end: int, p: int) -> Result<(QuestionView, int), Fault> {
    match name_result(b, end, p) {
        Err(e) => Err(e),
        Ok((name, at_type)) => if end - at_type < 2 {
            Err(eof_at(at_type as usize))
        } else {
            match type_result(b, at_type) {
                Err(e) => Err(e),
                Ok(t) => if end - (at_type + 2) < 2 {
                    Err(eof_at((at_type + 2) as usize))
                } else {
                    Ok((QuestionView { name, qtype: t, qclass: qclass_of(be16(b, at_type + 2)) }, at_type + 4))
                }
            }
        },
    }
}

/// Decoding `n` questions one after another from `p`.
pub open spec fn questions_result(b: Seq<u8>, end: int, p: int, n: nat) -> Result<(Seq<QuestionView>, int), Fault>
    decreases n,
{
    if n == 0 {
        Ok((Seq::empty(), p))
    } else {
        match questions_result(b, end, p, (n - 1) as nat) {
            Err(e) => Err(e),
            Ok((qs, q)) => match question_result(b, end, q) {
                Err(e) => Err(e),
                Ok((x, q2)) => Ok((qs.push(x), q2)),
            },
        }
    }
}

/// Decoding `n` resource records one after another from `p`.
pub open spec fn records_result(b: Seq<u8>, end: int, p: int, n: nat) -> Result<(Seq<RecordView>, int), Fault>
    decreases n,
{
    if n == 0 {
        Ok((Seq::empty(), p))
    } else {
        match records_result(b, end, p, (n - 1) as nat) {
            Err(e) => Err(e),
            Ok((rs, q)) => match record_result(b, end, q) {
                Err(e) => Err(e),
                Ok((x, q2)) => Ok((rs.push(x), q2)),
            },
        }
    }
}

/// Once decoding the first `k` questions fails, decoding more fails the same way.
proof fn lemma_questions_fail_on(b: Seq<u8>, end: int, p: int, k: nat, n: nat)
    requires
        k <= n,
        questions_result(b, end, p, k) is Err,
    ensures
        questions_result(b, end, p, n) == questions_result(b, end, p, k),
    decreases n - k,
{
    if k < n {
        lemma_questions_fail_on(b, end, p, k, (n - 1) as nat);
    }
}

/// Once decoding the first `k` records fails, decoding more fails the same way.
proof fn lemma_records_fail_on(b: Seq<u8>, end: int, p: int, k: nat, n: nat)
    requires
        k <= n,
        records_result(b, end, p, k) is Err,
    ensures
        records_result(b, end, p, n) == records_result(b, end, p, k),
    decreases n - k,
{
    if k < n {
        lemma_records_fail_on(b, end, p, k, (n - 1) as nat);
    }
}

/// A decoded message: the header and its four sections.
pub struct Message {
    pub header: Header,
    pub questions: Vec<Question>,
    pub answers: Vec<Record>,
    pub authorities: Vec<Record>,
    pub additionals: Vec<Record>,
}

/// What a message holds.
pub struct MessageView {
    pub header: Header,
    pub questions: Seq<QuestionView>,
    pub answers: Seq<RecordView>,
    pub authorities: Seq<RecordView>,
    pub additionals: Seq<RecordView>,
}

/// The views of a list of records.
pub open spec fn record_views(rs: Seq<Record>) -> Seq<RecordView> {
    Seq::new(rs.len(), |k: int| rs[k].view())
}

/// The views of a list of questions.
pub open spec fn question_views(qs: Seq<Question>) -> Seq<QuestionView> {
    Seq::new(qs.len(), |k: int| qs[k].view())
}

/// Decoding a whole message `b`: the header, then as many questions,
/// answers, authority and additional records as its counts give, in that
/// order. Bytes after the last record are not read.
pub open spec fn message_result(b: Seq<u8>) -> Result<MessageView, Fault> {
    let end = b.len() as int;
    if end < 12 {
        Err(eof_at(header_eof_offset(end) as usize))
    } else {
        let h = header_at(b, 0);
        match questions_result(b, end, 12, h.qdcount as nat) {
            Err(e) => Err(e),
            Ok((qs, after_qd)) => match records_result(b, end, after_qd, h.ancount as nat) {
                Err(e) => Err(e),
                Ok((an, after_an)) => match records_result(b, end, after_an, h.nscount as nat) {
                    Err(e) => Err(e),
                    Ok((ns, after_ns)) => match records_result(b, end, after_ns, h.arcount as nat) {
                        Err(e) => Err(e),
                        Ok((ar, _)) => Ok(MessageView {
                            header: h,
                            questions: qs,
                            answers: an,
                            authorities: ns,
                            additionals: ar,
                        }),
                    },
                },
            },
        }
    }
}

impl Question {
    /// Decodes a question: name, QTYPE and QCLASS.
    pub fn parse<'a>(i: IByteInput<'a>) -> (r: PResult<'a, Question>)
        requires
            i.inside(),
        ensures
            match question_result(i.bytes(), i.limit(), i.pos()) {
                Ok((v, next)) => r is Ok && r->Ok_0.1.view() == v && r->Ok_0.1.wf()
                    && r->Ok_0.0.pos() == next && r->Ok_0.0.same_region(i),
                Err(e) => r == Err::<(IByteInput, Question), Fault>(e),
            },
    {
        let (i, name) = Name::parse(i)?;
        let (i, qtype) = RecordType::parse(i)?;
        let (i, qclass) = RecordQClass::parse(i)?;
        Ok((i, Question { name, qtype, qclass }))
    }
}

/// Decodes `count` questions.
fn parse_questions<'a>(i: IByteInput<'a>, count: u16) -> (r: PResult<'a, Vec<Question>>)
    requires
        i.inside(),
    ensures
        match questions_result(i.bytes(), i.limit(), i.pos(), count as nat) {
            Ok((v, next)) => r is Ok && question_views(r->Ok_0.1@) == v
                && (forall|k: int| 0 <= k < r->Ok_0.1@.len() ==> (#[trigger] r->Ok_0.1@[k]).wf())
                && r->Ok_0.0.pos() == next && r->Ok_0.0.same_region(i),
            Err(e) => r == Err::<(IByteInput, Vec<Question>), Fault>(e),
        },
{
    let ghost b = i.bytes();
    let ghost end = i.limit();
    let ghost p = i.pos();
    let mut out: Vec<Question> = Vec::new();
    let mut cur = i;
    let mut k: u16 = 0;
    assert(question_views(out@) =~= Seq::<QuestionView>::empty());
    while k < count
        invariant
            k <= count,
            b == i.bytes() && end == i.limit() && p == i.pos(),
            cur.same_region(i),
            questions_result(b, end, p, k as nat) == Ok::<(Seq<QuestionView>, int), Fault>((question_views(out@), cur.pos())),
            forall|j: int| 0 <= j < out@.len() ==> (#[trigger] out@[j]).wf(),
        decreases count - k,
    {
        let ghost k0 = k as nat;
        assert(questions_result(b, end, p, k0 + 1) == match questions_result(b, end, p, k0) {
            Err(e) => Err(e),
            Ok((qs, q)) => match question_result(b, end, q) {
                Err(e) => Err(e),
                Ok((x, q2)) => Ok((qs.push(x), q2)),
            },
        });
        match Question::parse(cur) {
            Ok((next, q)) => {
                let ghost before = out@;
                let ghost qv = q.view();
                out.push(q);
                cur = next;
                k = k + 1;
                assert(question_views(out@) =~= question_views(before).push(qv));
            },
            Err(e) => {
                proof {
                    assert(cur.bytes() == b && cur.limit() == end);
                    assert(question_result(b, end, cur.pos()) == Err::<(QuestionView, int), Fault>(e));
                    lemma_questions_fail_on(b, end, p, (k + 1) as nat, count as nat);
                }
                return Err(e);
            },
        }
    }
    Ok((cur, out))
}

/// Decodes `count` resource records.
fn parse_records<'a>(i: IByteInput<'a>, count: u16) -> (r: PResult<'a, Vec<Record>>)
    requires
        i.inside(),
    ensures
        match records_result(i.bytes(), i.limit(), i.pos(), count as nat) {
            Ok((v, next)) => r is Ok && record_views(r->Ok_0.1@) == v
                && (forall|k: int| 0 <= k < r->Ok_0.1@.len() ==> (#[trigger] r->Ok_0.1@[k]).wf())
                && r->Ok_0.0.pos() == next && r->Ok_0.0.same_region(i),
            Err(e) => r == Err::<(IByteInput, Vec<Record>), Fault>(e),
        },
{
    let ghost b = i.bytes();
    let ghost end = i.limit();
    let ghost p = i.pos();
    let mut out: Vec<Record> = Vec::new();
    let mut cur = i;
    let mut k: u16 = 0;
    assert(record_views(out@) =~= Seq::<RecordView>::empty());
    while k < count
        invariant
            k <= count,
            b == i.bytes() && end == i.limit() && p == i.pos(),
            cur.same_region(i),
            records_result(b, end, p, k as nat) == Ok::<(Seq<RecordView>, int), Fault>((record_views(out@), cur.pos())),
            forall|j: int| 0 <= j < out@.len() ==> (#[trigger] out@[j]).wf(),
        decreases count - k,
    {
        let ghost k0 = k as nat;
        assert(records_result(b, end, p, k0 + 1) == match records_result(b, end, p, k0) {
            Err(e) => Err(e),
            Ok((qs, q)) => match record_result(b, end, q) {
                Err(e) => Err(e),
                Ok((x, q2)) => Ok((qs.push(x), q2)),
            },
        });
        match Record::parse(cur) {
            Ok((next, q)) => {
                let ghost before = out@;
                let ghost qv = q.view();
                out.push(q);
                cur = next;
                k = k + 1;
                assert(record_views(out@) =~= record_views(before).push(qv));
            },
            Err(e) => {
                proof {
                    assert(cur.bytes() == b && cur.limit() == end);
                    assert(record_result(b, end, cur.pos()) == Err::<(RecordView, int), Fault>(e));
                    lemma_records_fail_on(b, end, p, (k + 1) as nat, count as nat);
                }
                return Err(e);
            },
        }
    }
    Ok((cur, out))
}


impl Message {
    /// Decodes a whole message: the header, then its questions, answers,
    /// authority and additional records, as many as the header counts give.
    /// A failure is reported with the absolute byte position where it arose.
    pub fn parse(buf: &[u8]) -> (r: Result<Message, ParserError>)
        ensures
            match message_result(buf@) {
                Ok(v) => r is Ok && r->Ok_0.view() == v && r->Ok_0.wf(),
                Err(e) => r == Err::<Message, ParserError>(carried(e)),
            },
    {
        match Message::parse_sections(IndexedInput::new(buf)) {
            Ok(m) => Ok(m),
            Err(f) => Err(f.error()),
        }
    }

    fn parse_sections(i: IByteInput) -> (r: Result<Message, Fault>)
        requires
            i.inside(),
            i.pos() == 0,
            i.limit() == i.bytes().len(),
        ensures
            match message_result(i.bytes()) {
                Ok(v) => r is Ok && r->Ok_0.view() == v && r->Ok_0.wf(),
                Err(e) => r == Err::<Message, Fault>(e),
            },
    {
        let (i, header) = Header::parse(i)?;
        let (i, questions) = parse_questions(i, header.qdcount)?;
        let (i, answers) = parse_records(i, header.ancount)?;
        let (i, authorities) = parse_records(i, header.nscount)?;
        let (_, additionals) = parse_records(i, header.arcount)?;
        Ok(Message { header, questions, answers, authorities, additionals })
    }

    pub open spec fn view(&self) -> MessageView {
        MessageView {
            header: self.header,
            questions: question_views(self.questions@),
            answers: record_views(self.answers@),
            authorities: record_views(self.authorities@),
            additionals: record_views(self.additionals@),
        }
    }

    pub open spec fn wf(&self) -> bool {
        &&& forall|k: int| 0 <= k < self.questions@.len() ==> (#[trigger] self.questions@[k]).wf()
        &&& forall|k: int| 0 <= k < self.answers@.len() ==> (#[trigger] self.answers@[k]).wf()
        &&& forall|k: int| 0 <= k < self.authorities@.len() ==> (#[trigger] self.authorities@[k]).wf()
        &&& forall|k: int| 0 <= k < self.additionals@.len() ==> (#[trigger] self.additionals@[k]).wf()
    }
}

} // verus!
