use vstd::prelude::*;
use tinyvec::TinyVec;
use crate::error::{eof_at, fatal_at, rejected_at, ErrorKind, Fault, ParserError, ParserErrorType};
use crate::indexed_input::{be16, IByteInput, PResult};

verus! {

/// The label bytes of a name, held in a tinyvec::TinyVec that stays inline
/// up to 32 bytes. Verus cannot take TinyVec's declaration (its `Array`
/// bound), so the vector is held here, opaque, and read only through the
/// functions below.
#[verifier::external_body]
pub struct LabelData {
    v: TinyVec<[u8; 32]>,
}

/// The label end offsets of a name, held in a tinyvec::TinyVec that stays
/// inline up to 24 labels; opaque for the same reason as `LabelData`.
#[verifier::external_body]
pub struct LabelEnds {
    v: TinyVec<[u8; 24]>,
}

/// The bytes held by a label-data vector.
pub uninterp spec fn data_items(v: LabelData) -> Seq<u8>;

/// The bytes held by a label-ends vector.
pub uninterp spec fn ends_items(v: LabelEnds) -> Seq<u8>;

/// Relies on tinyvec::TinyVec::new: a new vector is empty.
#[verifier::external_body]
fn data_new() -> (r: LabelData)
    ensures
        data_items(r) == Seq::<u8>::empty(),
{
    LabelData { v: TinyVec::new() }
}

/// Relies on tinyvec::TinyVec::extend_from_slice: the slice is appended in order.
#[verifier::external_body]
fn data_extend(d: &mut LabelData, s: &[u8])
    ensures
        data_items(*final(d)) == data_items(*old(d)) + s@,
{
    d.v.extend_from_slice(s)
}

/// Relies on tinyvec::TinyVec::truncate: the first `n` items stay.
#[verifier::external_body]
fn data_truncate(d: &mut LabelData, n: usize)
    requires
        n <= data_items(*old(d)).len(),
    ensures
        data_items(*final(d)) == data_items(*old(d)).subrange(0, n as int),
{
    d.v.truncate(n)
}

/// Relies on tinyvec::TinyVec::as_slice: the slice shows the contents.
#[verifier::external_body]
fn data_slice(d: &LabelData) -> (r: &[u8])
    ensures
        r@ == data_items(*d),
{
    d.v.as_slice()
}

/// Relies on tinyvec::TinyVec::new: a new vector is empty.
#[verifier::external_body]
fn ends_new() -> (r: LabelEnds)
    ensures
        ends_items(r) == Seq::<u8>::empty(),
{
    LabelEnds { v: TinyVec::new() }
}

/// Relies on tinyvec::TinyVec::push: the item is appended.
#[verifier::external_body]
fn ends_push(e: &mut LabelEnds, x: u8)
    ensures
        ends_items(*final(e)) == ends_items(*old(e)).push(x),
{
    e.v.push(x)
}

/// Relies on tinyvec::TinyVec::truncate: the first `n` items stay.
#[verifier::external_body]
fn ends_truncate(e: &mut LabelEnds, n: usize)
    requires
        n <= ends_items(*old(e)).len(),
    ensures
        ends_items(*final(e)) == ends_items(*old(e)).subrange(0, n as int),
{
    e.v.truncate(n)
}

/// Relies on tinyvec::TinyVec::as_slice: the slice shows the contents.
#[verifier::external_body]
fn ends_slice(e: &LabelEnds) -> (r: &[u8])
    ensures
        r@ == ends_items(*e),
{
    e.v.as_slice()
}

/// The longest label, in bytes.
pub const MAX_LABEL_LENGTH: u8 = 63;

/// The longest name: label bytes plus one separator per label.
pub const MAX_NAME_LENGTH: usize = 255;

/// A label of a name (text form).
pub struct Label(pub String);

/// The total number of bytes in `labels`.
pub open spec fn total_len(labels: Seq<Seq<u8>>) -> nat
    decreases labels.len(),
{
    if labels.len() == 0 {
        0
    } else {
        total_len(labels.drop_last()) + labels.last().len()
    }
}

/// The length of a name: its label bytes plus one separator per label; the
/// root name (no labels) has length 1.
pub open spec fn name_len(labels: Seq<Seq<u8>>) -> nat {
    if labels.len() == 0 { 1 } else { labels.len() + total_len(labels) }
}

/// Where label `k` starts in the concatenated label bytes.
pub open spec fn label_start(ends: Seq<u8>, k: int) -> int {
    if k == 0 { 0 } else { ends[k - 1] as int }
}

/// A domain name, fully expanded: its label bytes back to back, the end
/// offset of each label, and whether it is fully qualified.
pub struct Name {
    is_fqdn: bool,
    label_data: LabelData,
    label_ends: LabelEnds,
}

/// The labels that concatenated bytes `data` and end offsets `ends` describe.
pub open spec fn labels_of(data: Seq<u8>, ends: Seq<u8>) -> Seq<Seq<u8>> {
    Seq::new(ends.len(), |k: int| data.subrange(label_start(ends, k), ends[k] as int))
}

/// Label ends ascend strictly, each label has 1 to 63 bytes, the last end is
/// the data length, and the whole name is at most 255 long.
pub open spec fn layout_wf(data: Seq<u8>, ends: Seq<u8>) -> bool {
    &&& ends.len() == 0 ==> data.len() == 0
    &&& ends.len() > 0 ==> ends.last() == data.len()
    &&& forall|k: int| 0 <= k < ends.len() ==> {
        &&& label_start(ends, k) < #[trigger] ends[k] <= data.len()
        &&& ends[k] - label_start(ends, k) <= 63
    }
    &&& data.len() == total_len(labels_of(data, ends))
    &&& name_len(labels_of(data, ends)) <= 255
}

/// Appending a label's bytes and its end offset appends the label.
proof fn lemma_labels_push(data: Seq<u8>, ends: Seq<u8>, l: Seq<u8>)
    requires
        forall|k: int| 0 <= k < ends.len() ==> label_start(ends, k) < #[trigger] ends[k] <= data.len(),
        ends.len() == 0 ==> data.len() == 0,
        ends.len() > 0 ==> ends.last() == data.len(),
        data.len() + l.len() <= 255,
    ensures
        labels_of(data + l, ends.push((data.len() + l.len()) as u8)) == labels_of(data, ends).push(l),
{
    let d2 = data + l;
    let e2 = ends.push((data.len() + l.len()) as u8);
    let old_labels = labels_of(data, ends);
    let new_labels = labels_of(d2, e2);
    assert forall|k: int| 0 <= k < ends.len() implies #[trigger] new_labels[k] == old_labels[k] by {
        assert(label_start(e2, k) == label_start(ends, k));
        assert(d2.subrange(label_start(e2, k), e2[k] as int) =~= data.subrange(label_start(ends, k), ends[k] as int));
    }
    assert(label_start(e2, ends.len() as int) == data.len());
    assert(new_labels[ends.len() as int] =~= l);
    assert(new_labels =~= old_labels.push(l));
}

/// Appending a label of 1 to 63 bytes keeps a layout well formed while the
/// name stays within 255.
#[verifier::rlimit(40)]
proof fn lemma_append_label(data: Seq<u8>, ends: Seq<u8>, l: Seq<u8>)
    requires
        layout_wf(data, ends),
        1 <= l.len() <= 63,
        name_len(labels_of(data, ends).push(l)) <= 255,
    ensures
        labels_of(data + l, ends.push((data.len() + l.len()) as u8)) == labels_of(data, ends).push(l),
        layout_wf(data + l, ends.push((data.len() + l.len()) as u8)),
{
    let d2 = data + l;
    let e2 = ends.push((data.len() + l.len()) as u8);
    let old_labels = labels_of(data, ends);
    assert(old_labels.push(l).drop_last() =~= old_labels);
    assert(total_len(old_labels.push(l)) == total_len(old_labels) + l.len());
    assert(data.len() + l.len() <= 255);
    lemma_labels_push(data, ends, l);
    assert forall|k: int| 0 <= k < e2.len() implies {
        &&& label_start(e2, k) < #[trigger] e2[k] <= d2.len()
        &&& e2[k] - label_start(e2, k) <= 63
    } by {
        if k < ends.len() {
            assert(label_start(e2, k) == label_start(ends, k));
        } else {
            assert(ends.len() > 0 ==> label_start(e2, k) == data.len());
        }
    }
}

/// The kind of item a byte at a label position starts.
enum LabelType {
    Sequence,
    BackPointer,
    Root,
}

/// Top two bits of a label length byte that mark a pointer.
const TYPE_MASK: u8 = 0xC0;

/// The 14 offset bits of a pointer.
const ADDR_MASK: u16 = 0x3FFF;

/// `Some(x)` with `x` widened to an integer.
pub open spec fn opt_int(m: Option<usize>) -> Option<int> {
    match m {
        Some(x) => Some(x as int),
        None => None,
    }
}

/// Reading one length-prefixed label at `p`: its bytes and the position after
/// it, or the fault. A length of 64 or more is rejected.
pub open spec fn seq_label_result(b: Seq<u8>, end: int, p: int) -> Result<(Seq<u8>, int), Fault> {
    if p >= end {
        Err(eof_at(p as usize))
    } else if b[p] >= 64 {
        Err(rejected_at(p as usize, ParserErrorType::LabelBytesTooLong(b[p] as u16)))
    } else if end - (p + 1) < b[p] {
        Err(eof_at((p + 1) as usize))
    } else {
        Ok((b.subrange(p + 1, p + 1 + b[p]), p + 1 + b[p]))
    }
}

/// The pointer bound of one level of a name walk, as a measure: the bound
/// itself, or past the region's end at the top level.
pub open spec fn level_limit(bound: Option<int>, end: int) -> int {
    match bound {
        Some(m) => m,
        None => end + 1,
    }
}

/// Decoding the rest of a name whose current level started at `start`, from
/// position `pos` of `b` (readable up to `end`), with the labels `acc` found
/// so far. Positions at or past `bound` may not be read. The result is the
/// labels of the whole name and the position after this level's part of it
/// (after its zero byte, or after its pointer), or the fault.
///
/// A pointer must point strictly before itself; the level it starts is
/// bounded by the start of the level that holds the pointer, so each jump
/// lowers the bound and the walk ends.
#[verifier::opaque]
pub open spec fn name_walk(b: Seq<u8>, end: int, pos: int, start: int, bound: Option<int>, acc: Seq<Seq<u8>>)
    -> Result<(Seq<Seq<u8>>, int), Fault>
    decreases level_limit(bound, end), end - pos
        when 0 <= start <= pos
{
    if bound is Some && pos >= bound->0 {
        Err(fatal_at(pos as usize, ParserErrorType::LabelOverlapsWithOther { label: pos as usize, other: bound->0 as usize }))
    } else if pos >= end {
        Err(eof_at(pos as usize))
    } else if b[pos] == 0 {
        Ok((acc, pos + 1))
    } else if b[pos] & 0xC0 == 0xC0 {
        if end - pos < 2 {
            Err(eof_at(pos as usize))
        } else {
            let target = (be16(b, pos) & 0x3FFF) as int;
            if target >= pos {
                Err(rejected_at(pos as usize, ParserErrorType::PointerNotPriorToLabel { idx: pos as usize, ptr: target as u16 }))
            } else {
                match name_walk(b, end, target, target, Some(start), acc) {
                    Ok((labels, _)) => Ok((labels, pos + 2)),
                    Err(e) => Err(e),
                }
            }
        }
    } else if b[pos] & 0xC0 == 0 {
        match seq_label_result(b, end, pos) {
            Err(e) => Err(e),
            Ok((label, next)) => {
                let grown = acc.push(label);
                if name_len(grown) > 255 {
                    Err(fatal_at(next as usize, ParserErrorType::DomainNameTooLong(name_len(grown) as usize)))
                } else {
                    name_walk(b, end, next, start, bound, grown)
                }
            }
        }
    } else {
        Err(rejected_at(pos as usize, ParserErrorType::UnknownLabelType(b[pos] & 0xC0)))
    }
}

/// Decoding a whole name at `p`, from the top level with no labels yet.
pub open spec fn name_result(b: Seq<u8>, end: int, p: int) -> Result<(Seq<Seq<u8>>, int), Fault> {
    name_walk(b, end, p, p, None, Seq::empty())
}

/// `r`, with the position of a success replaced by `q` when `q` is given.
pub open spec fn resumed_at(q: Option<int>, r: Result<(Seq<Seq<u8>>, int), Fault>) -> Result<(Seq<Seq<u8>>, int), Fault> {
    match q {
        None => r,
        Some(q) => match r {
            Ok((labels, _)) => Ok((labels, q)),
            Err(e) => Err(e),
        },
    }
}

impl Name {
    pub closed spec fn data(&self) -> Seq<u8> {
        data_items(self.label_data)
    }

    pub closed spec fn ends(&self) -> Seq<u8> {
        ends_items(self.label_ends)
    }

    pub closed spec fn fqdn(&self) -> bool {
        self.is_fqdn
    }

    /// The labels of the name, in order.
    pub open spec fn labels(&self) -> Seq<Seq<u8>> {
        labels_of(self.data(), self.ends())
    }

    /// The byte layout describes at most 255 bytes of labels of 1 to 63 bytes.
    pub open spec fn wf(&self) -> bool {
        layout_wf(self.data(), self.ends())
    }

    /// An empty name, not fully qualified.
    pub fn new() -> (r: Name)
        ensures
            r.wf(),
            r.labels() == Seq::<Seq<u8>>::empty(),
            !r.fqdn(),
    {
        let r = Name { is_fqdn: false, label_data: data_new(), label_ends: ends_new() };
        assert(r.labels() =~= Seq::<Seq<u8>>::empty());
        r
    }

    /// The root name: no labels, fully qualified.
    pub fn root() -> (r: Name)
        ensures
            r.wf(),
            r.labels() == Seq::<Seq<u8>>::empty(),
            r.fqdn(),
    {
        let mut this = Name::new();
        this.is_fqdn = true;
        this
    }

    /// Whether the name is fully qualified.
    pub fn is_fqdn(&self) -> (r: bool)
        ensures
            r == self.fqdn(),
    {
        self.is_fqdn
    }

    /// The length of the name: label bytes plus one separator per label (1 for the root).
    pub fn len(&self) -> (r: usize)
        requires
            self.wf(),
        ensures
            r == name_len(self.labels()),
    {
        let ends = ends_slice(&self.label_ends);
        let data = data_slice(&self.label_data);
        let dots = if ends.len() != 0 { ends.len() } else { 1 };
        dots + data.len()
    }

    /// The labels of the name, each as its bytes.
    pub fn to_labels(&self) -> (r: Vec<Vec<u8>>)
        requires
            self.wf(),
        ensures
            r@.len() == self.labels().len(),
            forall|k: int| 0 <= k < r@.len() ==> (#[trigger] r@[k])@ == self.labels()[k],
    {
        let ends = ends_slice(&self.label_ends);
        let data = data_slice(&self.label_data);
        let mut out: Vec<Vec<u8>> = Vec::new();
        let mut k: usize = 0;
        while k < ends.len()
            invariant
                self.wf(),
                ends@ == self.ends(),
                data@ == self.data(),
                k <= ends@.len(),
                out@.len() == k,
                forall|j: int| 0 <= j < k ==> (#[trigger] out@[j])@ == self.labels()[j],
            decreases ends@.len() - k,
        {
            let start: usize = if k == 0 { 0 } else { ends[k - 1] as usize };
            let stop: usize = ends[k] as usize;
            assert(label_start(self.ends(), k as int) < self.ends()[k as int] <= self.data().len());
            let label = vstd::slice::slice_to_vec(vstd::slice::slice_subrange(data, start, stop));
            out.push(label);
            k = k + 1;
        }
        out
    }

    /// Appends a label, unless the name would grow past 255.
    fn extend_name(&mut self, label: &[u8]) -> (r: Result<(), ParserErrorType>)
        requires
            old(self).wf(),
            1 <= label@.len() <= 63,
        ensures
            name_len(old(self).labels().push(label@)) > 255 ==> r == Err::<(), ParserErrorType>(
                ParserErrorType::DomainNameTooLong(name_len(old(self).labels().push(label@)) as usize))
                && *final(self) == *old(self),
            name_len(old(self).labels().push(label@)) <= 255 ==> r is Ok
                && final(self).labels() == old(self).labels().push(label@)
                && final(self).data() == old(self).data() + label@
                && final(self).ends() == old(self).ends().push((old(self).data().len() + label@.len()) as u8)
                && final(self).fqdn() == old(self).fqdn() && final(self).wf(),
    {
        let ends = ends_slice(&self.label_ends);
        let data = data_slice(&self.label_data);
        let new_len = ends.len() + 1 + data.len() + label.len();
        proof {
            assert(self.labels().push(label@).drop_last() =~= self.labels());
        }
        if new_len > MAX_NAME_LENGTH {
            return Err(ParserErrorType::DomainNameTooLong(new_len));
        }
        let data_len = data.len() + label.len();
        proof {
            lemma_append_label(self.data(), self.ends(), label@);
        }
        data_extend(&mut self.label_data, label);
        ends_push(&mut self.label_ends, data_len as u8);
        Ok(())
    }

    /// Classifies the item at the cursor without consuming it.
    fn peek_type(i: &IByteInput) -> (r: Result<LabelType, Fault>)
        requires
            i.inside(),
        ensures
            i.pos() >= i.limit() ==> r == Err::<LabelType, Fault>(eof_at(i.pos() as usize)),
            i.pos() < i.limit() ==> ({
                let x = i.bytes()[i.pos()];
                &&& x == 0 ==> r is Ok && r->Ok_0 is Root
                &&& x != 0 && x & 0xC0 == 0xC0 ==> r is Ok && r->Ok_0 is BackPointer
                &&& x != 0 && x & 0xC0 == 0 ==> r is Ok && r->Ok_0 is Sequence
                &&& x & 0xC0 != 0xC0 && x & 0xC0 != 0 ==> r == Err::<LabelType, Fault>(
                    rejected_at(i.pos() as usize, ParserErrorType::UnknownLabelType(x & 0xC0)))
            }),
    {
        let b = i.peek_u8()?;
        assert(b == 0 ==> b & 0xC0 == 0) by (bit_vector);
        if b == 0 {
            Ok(LabelType::Root)
        } else if (b & TYPE_MASK) == 0xC0 {
            Ok(LabelType::BackPointer)
        } else if (b & TYPE_MASK) == 0x00 {
            Ok(LabelType::Sequence)
        } else {
            Err(Fault::Failure(ParserError::from_external_error(i.idx(), ErrorKind::MapRes,
                ParserErrorType::UnknownLabelType(b & TYPE_MASK))))
        }
    }

    /// Reads the target of the pointer at the cursor without consuming it; the
    /// target must lie strictly before the pointer.
    fn peek_ptr_offset(i: &IByteInput) -> (r: Result<usize, Fault>)
        requires
            i.inside(),
        ensures
            i.limit() - i.pos() < 2 ==> r == Err::<usize, Fault>(eof_at(i.pos() as usize)),
            i.limit() - i.pos() >= 2 ==> ({
                let target = (be16(i.bytes(), i.pos()) & 0x3FFF) as int;
                &&& target < i.pos() ==> r == Ok::<usize, Fault>(target as usize)
                &&& target >= i.pos() ==> r == Err::<usize, Fault>(rejected_at(i.pos() as usize,
                    ParserErrorType::PointerNotPriorToLabel { idx: i.pos() as usize, ptr: target as u16 }))
            }),
    {
        let (_, v) = i.be_u16()?;
        let ptr = (v & ADDR_MASK) as usize;
        if ptr < i.idx() {
            Ok(ptr)
        } else {
            Err(Fault::Failure(ParserError::from_external_error(i.idx(), ErrorKind::MapRes,
                ParserErrorType::PointerNotPriorToLabel { idx: i.idx(), ptr: ptr as u16 })))
        }
    }

    /// Reads a length byte of at most 63 and that many label bytes: the cursor
    /// after them, and a cursor over the label bytes.
    pub fn parse_seq_label<'a>(s: IByteInput<'a>) -> (r: PResult<'a, IByteInput<'a>>)
        requires
            s.inside(),
        ensures
            match seq_label_result(s.bytes(), s.limit(), s.pos()) {
                Ok((label, next)) => r is Ok && r->Ok_0.0.pos() == next && r->Ok_0.0.same_region(s)
                    && r->Ok_0.1.inside() && r->Ok_0.1.rest() == label
                    && r->Ok_0.1.bytes() == s.bytes() && r->Ok_0.1.pos() == s.pos() + 1
                    && r->Ok_0.1.limit() == next,
                Err(e) => r == Err::<(IByteInput, IByteInput), Fault>(e),
            },
    {
        let (i, num) = s.be_u8()?;
        if num > MAX_LABEL_LENGTH {
            return Err(Fault::Failure(ParserError::from_external_error(s.idx(), ErrorKind::MapRes,
                ParserErrorType::LabelBytesTooLong(num as u16))));
        }
        let (rest, label) = i.take_split(num as usize)?;
        Ok((rest, label))
    }

    /// Cuts the name back to its first `data_len` label bytes and `ends_len` labels.
    fn restore(&mut self, data_len: usize, ends_len: usize)
        requires
            data_len <= old(self).data().len(),
            ends_len <= old(self).ends().len(),
        ensures
            final(self).data() == old(self).data().subrange(0, data_len as int),
            final(self).ends() == old(self).ends().subrange(0, ends_len as int),
            final(self).fqdn() == old(self).fqdn(),
    {
        data_truncate(&mut self.label_data, data_len);
        ends_truncate(&mut self.label_ends, ends_len);
    }

    /// Decodes a name at the cursor and appends its labels to this one,
    /// following compression pointers. Reads at or past `max_idx`, when given,
    /// are refused. On success the cursor lies after the zero byte that ends
    /// the name, or after the first pointer met.
    #[verifier::loop_isolation(false)]
    pub fn parse_label<'a>(&mut self, i: IByteInput<'a>, max_idx: Option<usize>) -> (r: PResult<'a, ()>)
        requires
            old(self).wf(),
            i.inside(),
        ensures
            final(self).wf(),
            final(self).fqdn() == old(self).fqdn(),
            match name_walk(i.bytes(), i.limit(), i.pos(), i.pos(), opt_int(max_idx), old(self).labels()) {
                Ok((labels, next)) => r is Ok && r->Ok_0.0.pos() == next && r->Ok_0.0.same_region(i)
                    && final(self).labels() == labels,
                Err(e) => r == Err::<(IByteInput, ()), Fault>(e) && final(self).labels() == old(self).labels(),
            },
    {
        let ghost b = i.bytes();
        let ghost end = i.limit();
        let ghost target = name_walk(b, end, i.pos(), i.pos(), opt_int(max_idx), self.labels());
        let ghost fq = self.fqdn();
        let ghost data0 = self.data();
        let ghost ends0 = self.ends();
        let data_len = data_slice(&self.label_data).len();
        let ends_len = ends_slice(&self.label_ends).len();
        reveal(name_walk);
        let mut cur = i;
        let mut name_start: usize = i.idx();
        let mut bound: Option<usize> = max_idx;
        let mut ret: Option<IByteInput<'a>> = None;
        loop
            invariant
                self.wf(),
                self.fqdn() == fq,
                data_len == data0.len() && ends_len == ends0.len(),
                self.data().len() >= data_len && self.data().subrange(0, data_len as int) == data0,
                self.ends().len() >= ends_len && self.ends().subrange(0, ends_len as int) == ends0,
                old(self).wf() && data0 == old(self).data() && ends0 == old(self).ends(),
                cur.bytes() == b,
                cur.limit() == end,
                cur.inside(),
                name_start <= cur.pos(),
                ret is Some ==> ret->0.same_region(i),
                target == resumed_at(
                    match ret { Some(c) => Some(c.pos()), None => None },
                    name_walk(b, end, cur.pos(), name_start as int, opt_int(bound), self.labels())),
            decreases level_limit(opt_int(bound), end), end - cur.pos(),
        {
            if let Some(m) = bound {
                if cur.idx() >= m {
                    self.restore(data_len, ends_len);
                    return Err(Fault::Failure(ParserError {
                        position: cur.idx(),
                        kind: None,
                        err_type: Some(ParserErrorType::LabelOverlapsWithOther { label: cur.idx(), other: m }),
                    }));
                }
            }
            let label_type = match Name::peek_type(&cur) {
                Ok(t) => t,
                Err(e) => {
                    self.restore(data_len, ends_len);
                    return Err(e);
                },
            };
            match label_type {
                LabelType::Sequence => {
                    let (next, label) = match Name::parse_seq_label(cur) {
                        Ok(step) => step,
                        Err(e) => {
                            self.restore(data_len, ends_len);
                            return Err(e);
                        },
                    };
                    let bytes = label.input();
                    let ghost before_data = self.data();
                    let ghost before_ends = self.ends();
                    match self.extend_name(bytes) {
                        Ok(()) => {
                            assert(self.data().subrange(0, data_len as int) =~= before_data.subrange(0, data_len as int));
                            assert(self.ends().subrange(0, ends_len as int) =~= before_ends.subrange(0, ends_len as int));
                        },
                        Err(e) => {
                            self.restore(data_len, ends_len);
                            return Err(Fault::Failure(ParserError { position: next.idx(), kind: None, err_type: Some(e) }));
                        },
                    }
                    cur = next;
                },
                LabelType::BackPointer => {
                    let offset = match Name::peek_ptr_offset(&cur) {
                        Ok(o) => o,
                        Err(e) => {
                            self.restore(data_len, ends_len);
                            return Err(e);
                        },
                    };
                    if ret.is_none() {
                        ret = Some(cur.offset_original(cur.idx() + 2));
                    }
                    bound = Some(name_start);
                    name_start = offset;
                    cur = cur.offset_original(offset);
                },
                LabelType::Root => {
                    let (next, _) = match cur.be_u8() {
                        Ok(step) => step,
                        Err(e) => {
                            self.restore(data_len, ends_len);
                            return Err(e);
                        },
                    };
                    let out = match ret {
                        Some(c) => c,
                        None => next,
                    };
                    return Ok((out, ()));
                },
            }
        }
    }

    /// Decodes a fully qualified name at the cursor.
    pub fn parse<'a>(i: IByteInput<'a>) -> (r: PResult<'a, Name>)
        requires
            i.inside(),
        ensures
            match name_result(i.bytes(), i.limit(), i.pos()) {
                Ok((labels, next)) => r is Ok && r->Ok_0.0.pos() == next && r->Ok_0.0.same_region(i)
                    && r->Ok_0.1.labels() == labels && r->Ok_0.1.fqdn() && r->Ok_0.1.wf(),
                Err(e) => r == Err::<(IByteInput, Name), Fault>(e),
            },
    {
        let mut name = Name::root();
        let (i, _) = name.parse_label(i, None)?;
        Ok((i, name))
    }
}

} // verus!
