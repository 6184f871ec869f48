use vstd::prelude::*;
use crate::class::class_result;
use crate::error::{fatal_at, rejected_at, ParserErrorType};
use crate::indexed_input::be16;
use crate::name::{name_len, name_result, name_walk, seq_label_result, total_len};
use crate::record::record_result;
use crate::types::type_result;

verus! {

/// A label length byte of 63 is accepted and reads 63 bytes; a length byte
/// of 64 is refused with `LabelBytesTooLong`.
pub proof fn lemma_label_length_boundary(b: Seq<u8>, end: int, p: int)
    requires
        0 <= p,
        p + 64 <= end <= b.len(),
    ensures
        b[p] == 63 ==> seq_label_result(b, end, p) == Ok::<(Seq<u8>, int), crate::error::Fault>(
            (b.subrange(p + 1, p + 64), p + 64)),
        b[p] == 64 ==> seq_label_result(b, end, p) == Err::<(Seq<u8>, int), crate::error::Fault>(
            rejected_at(p as usize, ParserErrorType::LabelBytesTooLong(64))),
{
}

/// The wire form of a name without pointers: each label after its length
/// byte, then the zero byte.
pub open spec fn label_wire(labels: Seq<Seq<u8>>) -> Seq<u8>
    decreases labels.len(),
{
    if labels.len() == 0 {
        seq![0u8]
    } else {
        seq![labels[0].len() as u8] + labels[0] + label_wire(labels.drop_first())
    }
}

/// The byte count of labels put together is the sum of their byte counts.
proof fn lemma_total_len_concat(x: Seq<Seq<u8>>, y: Seq<Seq<u8>>)
    ensures
        total_len(x + y) == total_len(x) + total_len(y),
    decreases y.len(),
{
    if y.len() == 0 {
        assert(x + y =~= x);
    } else {
        assert((x + y).drop_last() =~= x + y.drop_last());
        lemma_total_len_concat(x, y.drop_last());
    }
}

/// A name written out label by label, with labels of 1 to 63 bytes and a
/// length of at most 255, decodes to exactly those labels (after any labels
/// already found), ending just after its zero byte.
pub proof fn lemma_wire_name_decodes(
    b: Seq<u8>,
    end: int,
    pos: int,
    start: int,
    acc: Seq<Seq<u8>>,
    labels: Seq<Seq<u8>>,
)
    requires
        0 <= start <= pos,
        pos + label_wire(labels).len() <= end <= b.len(),
        b.subrange(pos, pos + label_wire(labels).len()) == label_wire(labels),
        forall|k: int| 0 <= k < labels.len() ==> 1 <= #[trigger] labels[k].len() <= 63,
        name_len(acc + labels) <= 255,
    ensures
        name_walk(b, end, pos, start, None, acc) == Ok::<(Seq<Seq<u8>>, int), crate::error::Fault>(
            (acc + labels, pos + label_wire(labels).len())),
    decreases labels.len(),
{
    reveal(name_walk);
    let w = label_wire(labels);
    assert(b[pos] == b.subrange(pos, pos + w.len())[0]);
    if labels.len() == 0 {
        assert(acc + labels =~= acc);
    } else {
        let l0 = labels[0];
        let rest = labels.drop_first();
        let n = l0.len();
        let x = b[pos];
        assert(x == n as u8);
        assert(x != 0 && x < 64 ==> x & 0xC0 == 0) by (bit_vector);
        let next = pos + 1 + n;
        assert(b.subrange(pos + 1, next) =~= w.subrange(1, 1 + n as int));
        assert(w.subrange(1, 1 + n as int) =~= l0);
        assert(acc + labels =~= acc.push(l0) + rest);
        lemma_total_len_concat(acc.push(l0), rest);
        assert(name_len(acc.push(l0)) <= name_len(acc + labels));
        assert(label_wire(rest) =~= w.subrange(1 + n as int, w.len() as int));
        assert(b.subrange(next, next + label_wire(rest).len()) =~= label_wire(rest));
        assert forall|k: int| 0 <= k < rest.len() implies 1 <= #[trigger] rest[k].len() <= 63 by {
            assert(rest[k] == labels[k + 1]);
        }
        lemma_wire_name_decodes(b, end, next, start, acc.push(l0), rest);
    }
}

/// Adding a label that brings a name to exactly 255 lets the walk go on; a
/// label that brings it to 256 stops it with `DomainNameTooLong(256)`, just
/// after the label.
pub proof fn lemma_name_length_boundary(
    b: Seq<u8>,
    end: int,
    pos: int,
    start: int,
    bound: Option<int>,
    acc: Seq<Seq<u8>>,
)
    requires
        0 <= start <= pos,
        end <= b.len(),
        bound is Some ==> pos < bound->0,
        1 <= b[pos] < 64,
        pos + 1 + b[pos] <= end,
    ensures
        ({
            let label = b.subrange(pos + 1, pos + 1 + b[pos]);
            let next = pos + 1 + b[pos];
            &&& name_len(acc.push(label)) == 255 ==> name_walk(b, end, pos, start, bound, acc)
                == name_walk(b, end, next, start, bound, acc.push(label))
            &&& name_len(acc.push(label)) == 256 ==> name_walk(b, end, pos, start, bound, acc)
                == Err::<(Seq<Seq<u8>>, int), crate::error::Fault>(
                    fatal_at(next as usize, ParserErrorType::DomainNameTooLong(256)))
        }),
{
    reveal(name_walk);
    let x = b[pos];
    assert(x != 0 && x < 64 ==> x & 0xC0 == 0) by (bit_vector);
}

/// A pointer whose target is not strictly before the pointer itself fails
/// with `PointerNotPriorToLabel`, wherever it stands in a name.
pub proof fn lemma_pointer_must_point_back(
    b: Seq<u8>,
    end: int,
    pos: int,
    start: int,
    bound: Option<int>,
    acc: Seq<Seq<u8>>,
)
    requires
        0 <= start <= pos,
        pos + 2 <= end <= b.len(),
        bound is Some ==> pos < bound->0,
        b[pos] & 0xC0 == 0xC0,
        (be16(b, pos) & 0x3FFF) as int >= pos,
    ensures
        name_walk(b, end, pos, start, bound, acc) == Err::<(Seq<Seq<u8>>, int), crate::error::Fault>(
            rejected_at(pos as usize, ParserErrorType::PointerNotPriorToLabel {
                idx: pos as usize,
                ptr: (be16(b, pos) & 0x3FFF) as u16,
            })),
{
    reveal(name_walk);
    let x = b[pos];
    assert(x & 0xC0 == 0xC0 ==> x != 0) by (bit_vector);
}

/// A record whose name, TYPE, CLASS, TTL and RDLENGTH decode, but whose
/// (type, class) pair is neither (A, IN) nor (SOA, any class), fails with
/// `UnimplementedRecordData` at the start of its RDATA.
pub proof fn lemma_unimplemented_rdata(b: Seq<u8>, end: int, p: int)
    requires
        name_result(b, end, p) is Ok,
        ({
            let q = name_result(b, end, p)->Ok_0.1;
            &&& q + 10 <= end
            &&& type_result(b, q) is Ok
            &&& class_result(b, q + 2) is Ok
            &&& q + 10 + be16(b, q + 8) <= end
            &&& !(type_result(b, q)->Ok_0 is A && class_result(b, q + 2)->Ok_0 is IN)
            &&& !(type_result(b, q)->Ok_0 is SOA)
        }),
    ensures
        ({
            let q = name_result(b, end, p)->Ok_0.1;
            record_result(b, end, p) == Err::<(crate::record::RecordView, int), crate::error::Fault>(
                fatal_at((q + 10) as usize, ParserErrorType::UnimplementedRecordData {
                    rtype: type_result(b, q)->Ok_0,
                    class: class_result(b, q + 2)->Ok_0,
                }))
        }),
{
}

} // verus!
