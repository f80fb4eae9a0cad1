//! Reading back what a DNS message writes: names, questions, records and
//! whole messages.
use vstd::prelude::*;
use vstd::utf8::{valid_utf8, decode_utf8, is_char_boundary};
use crate::net::dns::{
    name_spec, name_wire, name_wire_from, read_name, read_question, read_record, read_questions, read_records,
    question_wire, record_wire, questions_wire, records_wire, question_views, record_views, header_wire, header_of,
    message_wire, message_read, message_error, lemma_header_roundtrip, lemma_dns_code_roundtrip, SpecBytesOf,
    DnsQuestion, DnsResourceRecord, DnsMessage, record_type_code, class_code, DNS_HEADER_SIZE,
};
use crate::net::types::NetworkError;
use crate::net::wire::{be16, be32, lemma_be16_roundtrip, lemma_be32_roundtrip};

verus! {

/// The labels of a name's bytes `b`, from position `i` with the current
/// label starting at `start`, are each 1 to 63 bytes long.
pub open spec fn labels_ok_from(b: Seq<u8>, start: int, i: int) -> bool
    decreases b.len() - i,
{
    if i >= b.len() {
        1 <= b.len() - start <= 63
    } else if b[i] == 0x2Eu8 {
        1 <= i - start <= 63 && labels_ok_from(b, i + 1, i + 1)
    } else {
        labels_ok_from(b, start, i + 1)
    }
}

/// A name whose dot-separated labels are each 1 to 63 bytes of UTF-8.
pub open spec fn name_ok(name: Seq<char>) -> bool {
    labels_ok_from(name.spec_bytes_of(), 0, 0)
}

/// Text `x` appended to the characters `acc` read so far, after a dot
/// when there are any.
pub open spec fn join_label(acc: Seq<char>, x: Seq<char>) -> Seq<char> {
    if acc.len() == 0 {
        x
    } else {
        acc.push('.') + x
    }
}

/// Valid UTF-8 that starts with a dot decodes as a dot and the rest.
proof fn lemma_leading_dot(bytes: Seq<u8>)
    requires
        valid_utf8(bytes),
        bytes.len() > 0,
        bytes[0] == 0x2Eu8,
    ensures
        valid_utf8(bytes.drop_first()),
        decode_utf8(bytes) == seq!['.'] + decode_utf8(bytes.drop_first()),
{
    assert(0x2Eu8 & 0x7Fu8 == 0x2Eu8) by (bit_vector);
    assert(vstd::utf8::length_of_first_scalar(bytes) == 1);
    assert(vstd::utf8::pop_first_scalar(bytes) =~= bytes.drop_first());
    assert(vstd::utf8::decode_first_scalar(bytes) == 0x2Eu32);
}

/// Valid UTF-8 that is not empty decodes to at least one character.
proof fn lemma_decode_nonempty(bytes: Seq<u8>)
    requires
        valid_utf8(bytes),
        bytes.len() > 0,
    ensures
        decode_utf8(bytes).len() > 0,
{
}

/// Reading the wire form of the labels of `b` from `start` on, at `off`
/// of `d`, after the characters `acc`, gives `acc` joined with the text
/// of those bytes, and the offset after the wire form.
pub proof fn lemma_read_labels(d: Seq<u8>, off: int, b: Seq<u8>, start: int, i: int, acc: Seq<char>, jumps: nat)
    requires
        0 <= start <= i <= b.len(),
        forall|k: int| start <= k < i ==> b[k] != 0x2Eu8,
        labels_ok_from(b, start, i),
        valid_utf8(b.subrange(start, b.len() as int)),
        0 <= off,
        off + name_wire_from(b, start, i).len() <= d.len(),
        d.subrange(off, off + name_wire_from(b, start, i).len()) == name_wire_from(b, start, i),
    ensures
        name_spec(d, off, false, 0, acc, jumps) == Ok::<(Seq<char>, int), crate::net::types::NetworkError>(
            (join_label(acc, decode_utf8(b.subrange(start, b.len() as int))), off + name_wire_from(b, start, i).len()),
        ),
    decreases b.len() - i,
{
    let w = name_wire_from(b, start, i);
    if i >= b.len() {
        let l = i - start;
        let label = b.subrange(start, b.len() as int);
        assert(w == seq![l as u8] + label + seq![0u8]);
        assert(d[off] == w[0]);
        assert(d[off + 1 + l] == w[1 + l]);
        assert(d.subrange(off + 1, off + 1 + l) =~= label) by {
            assert forall|k: int| 0 <= k < l implies d.subrange(off + 1, off + 1 + l)[k] == label[k] by {
                assert(d[off + 1 + k] == w[1 + k]);
            }
        }
        if acc.len() == 0 {
            assert(acc + decode_utf8(label) =~= decode_utf8(label));
        }
        let acc2 = join_label(acc, decode_utf8(label));
        assert(d[off + 1 + l] == 0u8);
        assert(name_spec(d, off + 1 + l, false, 0, acc2, jumps) == Ok::<(Seq<char>, int), crate::net::types::NetworkError>(
            (acc2, off + 1 + l + 1),
        ));
        assert(name_spec(d, off, false, 0, acc, jumps) == name_spec(d, off + 1 + l, false, 0, acc2, jumps));
    } else if b[i] == 0x2Eu8 {
        let l = i - start;
        let whole = b.subrange(start, b.len() as int);
        let label = b.subrange(start, i);
        let rest = b.subrange(i + 1, b.len() as int);
        let w2 = name_wire_from(b, i + 1, i + 1);
        assert(w == seq![l as u8] + label + w2);
        // the dot is a character boundary of the bytes from `start`
        assert(whole[l] == 0x2Eu8);
        vstd::utf8::is_char_boundary_iff_not_is_continuation_byte(whole, l);
        vstd::utf8::valid_utf8_split(whole, l);
        vstd::utf8::decode_utf8_split(whole, l);
        assert(whole.subrange(0, l) =~= label);
        let tail = whole.subrange(l, whole.len() as int);
        lemma_leading_dot(tail);
        assert(tail.drop_first() =~= rest);
        assert(decode_utf8(whole) == decode_utf8(label) + (seq!['.'] + decode_utf8(rest)));
        lemma_decode_nonempty(label);
        assert(d[off] == w[0]);
        assert(d.subrange(off + 1, off + 1 + l) =~= label) by {
            assert forall|k: int| 0 <= k < l implies d.subrange(off + 1, off + 1 + l)[k] == label[k] by {
                assert(d[off + 1 + k] == w[1 + k]);
            }
        }
        let acc2 = join_label(acc, decode_utf8(label));
        if acc.len() == 0 {
            assert(acc + decode_utf8(label) =~= decode_utf8(label));
        }
        let off2 = off + 1 + l;
        assert(d.subrange(off2, off2 + w2.len()) =~= w2) by {
            assert forall|k: int| 0 <= k < w2.len() implies d.subrange(off2, off2 + w2.len())[k] == w2[k] by {
                assert(d[off2 + k] == w[1 + l + k]);
            }
        }
        assert(rest =~= b.subrange(i + 1, b.len() as int));
        lemma_read_labels(d, off2, b, i + 1, i + 1, acc2, jumps);
        assert(join_label(acc2, decode_utf8(rest)) =~= join_label(acc, decode_utf8(whole)));
    } else {
        lemma_read_labels(d, off, b, start, i + 1, acc, jumps);
    }
}

/// `d` holds `w` from `off` on.
pub open spec fn holds_at(d: Seq<u8>, off: int, w: Seq<u8>) -> bool {
    0 <= off && off + w.len() <= d.len() && d.subrange(off, off + w.len()) == w
}

/// What `d` holds from `off` on, split into `w1` and `w2`.
proof fn lemma_holds_split(d: Seq<u8>, off: int, w1: Seq<u8>, w2: Seq<u8>)
    requires
        holds_at(d, off, w1 + w2),
    ensures
        holds_at(d, off, w1),
        holds_at(d, off + w1.len(), w2),
{
    let w = w1 + w2;
    assert(d.subrange(off, off + w1.len()) =~= w1) by {
        assert forall|k: int| 0 <= k < w1.len() implies d.subrange(off, off + w1.len())[k] == w1[k] by {
            assert(d[off + k] == w[k]);
        }
    }
    assert(d.subrange(off + w1.len(), off + w1.len() + w2.len()) =~= w2) by {
        assert forall|k: int| 0 <= k < w2.len() implies d.subrange(off + w1.len(), off + w1.len() + w2.len())[k]
            == w2[k] by {
            assert(d[off + w1.len() + k] == w[w1.len() + k]);
        }
    }
}

/// Reading a name at an offset that holds its wire form gives the name
/// and the offset after it.
pub proof fn lemma_read_name(d: Seq<u8>, off: int, name: Seq<char>)
    requires
        name_ok(name),
        holds_at(d, off, name_wire(name.spec_bytes_of())),
    ensures
        read_name(d, off) == Ok::<(Seq<char>, int), NetworkError>((name, off + name_wire(name.spec_bytes_of()).len())),
{
    let b = name.spec_bytes_of();
    vstd::utf8::encode_utf8_valid_utf8(name);
    vstd::utf8::encode_utf8_decode_utf8(name);
    assert(b.subrange(0, b.len() as int) =~= b);
    lemma_read_labels(d, off, b, 0, 0, Seq::empty(), d.len());
}

/// The bytes of a 16-bit field read back.
proof fn lemma_be16_at(d: Seq<u8>, off: int, x: u16)
    requires
        holds_at(d, off, be16(x)),
    ensures
        crate::net::wire::from_be16(d[off], d[off + 1]) == x,
{
    assert(d[off] == be16(x)[0]);
    assert(d[off + 1] == be16(x)[1]);
    lemma_be16_roundtrip(x);
}

/// Reading a question at an offset that holds its wire form.
pub proof fn lemma_read_question(d: Seq<u8>, off: int, q: DnsQuestion)
    requires
        name_ok(q.name@),
        holds_at(d, off, question_wire(q)),
    ensures
        read_question(d, off) == Ok::<(crate::net::dns::QuestionView, int), NetworkError>((q.view_tuple(), off + question_wire(q).len())),
{
    let nw = name_wire(q.name@.spec_bytes_of());
    let t = be16(record_type_code(q.qtype));
    let c = be16(class_code(q.qclass));
    assert(question_wire(q) == nw + (t + c));
    lemma_holds_split(d, off, nw, t + c);
    lemma_holds_split(d, off + nw.len(), t, c);
    lemma_read_name(d, off, q.name@);
    lemma_be16_at(d, off + nw.len(), record_type_code(q.qtype));
    lemma_be16_at(d, off + nw.len() + 2, class_code(q.qclass));
    lemma_dns_code_roundtrip(q.qtype, q.qclass);
}

/// Reading a record at an offset that holds its wire form, when its data
/// length fits in 16 bits.
pub proof fn lemma_read_record(d: Seq<u8>, off: int, r: DnsResourceRecord)
    requires
        name_ok(r.name@),
        r.rdata@.len() <= 65535,
        holds_at(d, off, record_wire(r)),
    ensures
        read_record(d, off) == Ok::<(crate::net::dns::RecordView, int), NetworkError>((r.view_tuple(), off + record_wire(r).len())),
{
    let nw = name_wire(r.name@.spec_bytes_of());
    let t = be16(record_type_code(r.rtype));
    let c = be16(class_code(r.rclass));
    let ttl = be32(r.ttl);
    let l = be16(r.rdata@.len() as u16);
    let data = r.rdata@;
    assert(record_wire(r) == nw + (t + (c + (ttl + (l + data)))));
    lemma_holds_split(d, off, nw, t + (c + (ttl + (l + data))));
    let o = off + nw.len();
    lemma_holds_split(d, o, t, c + (ttl + (l + data)));
    lemma_holds_split(d, o + 2, c, ttl + (l + data));
    lemma_holds_split(d, o + 4, ttl, l + data);
    lemma_holds_split(d, o + 8, l, data);
    lemma_read_name(d, off, r.name@);
    lemma_be16_at(d, o, record_type_code(r.rtype));
    lemma_be16_at(d, o + 2, class_code(r.rclass));
    lemma_be16_at(d, o + 8, r.rdata@.len() as u16);
    assert(d[o + 4] == ttl[0] && d[o + 5] == ttl[1] && d[o + 6] == ttl[2] && d[o + 7] == ttl[3]);
    lemma_be32_roundtrip(r.ttl);
    lemma_dns_code_roundtrip(r.rtype, r.rclass);
    assert(d.subrange(o + 10, o + 10 + data.len()) == data);
}

/// The wire form of questions, the first one first.
proof fn lemma_questions_wire_first(qs: Seq<DnsQuestion>)
    requires
        qs.len() > 0,
    ensures
        questions_wire(qs) == question_wire(qs[0]) + questions_wire(qs.drop_first()),
    decreases qs.len(),
{
    if qs.len() == 1 {
        assert(qs.drop_last().len() == 0);
        assert(qs.drop_first().len() == 0);
        assert(questions_wire(qs.drop_last()) == Seq::<u8>::empty());
        assert(qs.last() == qs[0]);
        assert(questions_wire(qs) =~= question_wire(qs[0]));
        assert(questions_wire(qs.drop_first()) == Seq::<u8>::empty());
    } else {
        lemma_questions_wire_first(qs.drop_last());
        assert(qs.drop_last().drop_first() =~= qs.drop_first().drop_last());
        assert(qs.drop_first().last() == qs.last());
        assert(questions_wire(qs) =~= question_wire(qs[0]) + questions_wire(qs.drop_first()));
    }
}

/// The wire form of records, the first one first.
proof fn lemma_records_wire_first(rs: Seq<DnsResourceRecord>)
    requires
        rs.len() > 0,
    ensures
        records_wire(rs) == record_wire(rs[0]) + records_wire(rs.drop_first()),
    decreases rs.len(),
{
    if rs.len() == 1 {
        assert(rs.drop_last().len() == 0);
        assert(rs.drop_first().len() == 0);
        assert(records_wire(rs.drop_last()) == Seq::<u8>::empty());
        assert(rs.last() == rs[0]);
        assert(records_wire(rs) =~= record_wire(rs[0]));
        assert(records_wire(rs.drop_first()) == Seq::<u8>::empty());
    } else {
        lemma_records_wire_first(rs.drop_last());
        assert(rs.drop_last().drop_first() =~= rs.drop_first().drop_last());
        assert(rs.drop_first().last() == rs.last());
        assert(records_wire(rs) =~= record_wire(rs[0]) + records_wire(rs.drop_first()));
    }
}

/// Reading as many questions as were written gives them back.
pub proof fn lemma_read_questions(d: Seq<u8>, off: int, qs: Seq<DnsQuestion>)
    requires
        forall|i: int| 0 <= i < qs.len() ==> name_ok((#[trigger] qs[i]).name@),
        holds_at(d, off, questions_wire(qs)),
    ensures
        read_questions(d, off, qs.len()) == Ok::<(Seq<crate::net::dns::QuestionView>, int), NetworkError>(
            (question_views(qs), off + questions_wire(qs).len()),
        ),
    decreases qs.len(),
{
    if qs.len() == 0 {
        assert(question_views(qs) =~= Seq::<crate::net::dns::QuestionView>::empty());
    } else {
        lemma_questions_wire_first(qs);
        let q = qs[0];
        let rest = qs.drop_first();
        lemma_holds_split(d, off, question_wire(q), questions_wire(rest));
        lemma_read_question(d, off, q);
        assert forall|i: int| 0 <= i < rest.len() implies name_ok((#[trigger] rest[i]).name@) by {
            assert(rest[i] == qs[i + 1]);
        }
        lemma_read_questions(d, off + question_wire(q).len(), rest);
        assert(question_views(qs) =~= seq![q.view_tuple()] + question_views(rest));
    }
}

/// Reading as many records as were written gives them back.
pub proof fn lemma_read_records(d: Seq<u8>, off: int, rs: Seq<DnsResourceRecord>)
    requires
        forall|i: int| 0 <= i < rs.len() ==> name_ok((#[trigger] rs[i]).name@) && rs[i].rdata@.len() <= 65535,
        holds_at(d, off, records_wire(rs)),
    ensures
        read_records(d, off, rs.len()) == Ok::<(Seq<crate::net::dns::RecordView>, int), NetworkError>(
            (record_views(rs), off + records_wire(rs).len()),
        ),
    decreases rs.len(),
{
    if rs.len() == 0 {
        assert(record_views(rs) =~= Seq::<crate::net::dns::RecordView>::empty());
    } else {
        lemma_records_wire_first(rs);
        let r = rs[0];
        let rest = rs.drop_first();
        lemma_holds_split(d, off, record_wire(r), records_wire(rest));
        lemma_read_record(d, off, r);
        assert forall|i: int| 0 <= i < rest.len() implies name_ok((#[trigger] rest[i]).name@) && rest[i].rdata@.len()
            <= 65535 by {
            assert(rest[i] == rs[i + 1]);
        }
        lemma_read_records(d, off + record_wire(r).len(), rest);
        assert(record_views(rs) =~= seq![r.view_tuple()] + record_views(rest));
    }
}

/// A message that can be written and read back: its counts are the
/// lengths of its sections, its opcode and reserved field fit their bits,
/// every name is dot-separated labels of 1 to 63 bytes, and all record
/// data fits a 16-bit length.
pub open spec fn message_ok(m: DnsMessage) -> bool {
    &&& m.header.qdcount == m.questions@.len()
    &&& m.header.ancount == m.answers@.len()
    &&& m.header.nscount == m.authority@.len()
    &&& m.header.arcount == m.additional@.len()
    &&& m.header.opcode < 16
    &&& m.header.z < 8
    &&& forall|i: int| 0 <= i < m.questions@.len() ==> name_ok((#[trigger] m.questions@[i]).name@)
    &&& records_ok(m.answers@)
    &&& records_ok(m.authority@)
    &&& records_ok(m.additional@)
}

/// Every record has a well-formed name and data that fits a 16-bit length.
pub open spec fn records_ok(rs: Seq<DnsResourceRecord>) -> bool {
    forall|i: int| 0 <= i < rs.len() ==> name_ok((#[trigger] rs[i]).name@) && rs[i].rdata@.len() <= 65535
}

/// Where the parts of a message's wire form stand in it.
proof fn lemma_message_layout(m: DnsMessage)
    ensures
        ({
            let d = message_wire(m);
            let q = questions_wire(m.questions@).len() as int;
            let a = records_wire(m.answers@).len() as int;
            let n = records_wire(m.authority@).len() as int;
            &&& header_wire(m.header).len() == 12
            &&& holds_at(d, 0, header_wire(m.header))
            &&& holds_at(d, 12, questions_wire(m.questions@))
            &&& holds_at(d, 12 + q, records_wire(m.answers@))
            &&& holds_at(d, 12 + q + a, records_wire(m.authority@))
            &&& holds_at(d, 12 + q + a + n, records_wire(m.additional@))
        }),
{
    let d = message_wire(m);
    let o1: int = 12;
    let hw = header_wire(m.header);
    let qw = questions_wire(m.questions@);
    let aw = records_wire(m.answers@);
    let nw = records_wire(m.authority@);
    let rw = records_wire(m.additional@);
    assert(d =~= hw + (qw + (aw + (nw + rw))));
    assert(d.subrange(0, d.len() as int) =~= d);
    lemma_holds_split(d, 0, hw, qw + (aw + (nw + rw)));
    lemma_holds_split(d, o1, qw, aw + (nw + rw));
    lemma_holds_split(d, o1 + qw.len(), aw, nw + rw);
    lemma_holds_split(d, o1 + qw.len() + aw.len(), nw, rw);
}

/// The header read from a message's wire form is the message's header.
proof fn lemma_message_header(m: DnsMessage)
    requires
        m.header.opcode < 16,
        m.header.z < 8,
    ensures
        header_of(message_wire(m)) == m.header,
        message_wire(m).len() >= 12,
{
    lemma_message_layout(m);
    let d = message_wire(m);
    let hw = header_wire(m.header);
    lemma_header_roundtrip(m.header);
    assert forall|k: int| 0 <= k < 12 implies d[k] == hw[k] by {
        assert(d.subrange(0, 12)[k] == hw[k]);
    }
    assert(header_of(d) == header_of(hw));
}

/// Reading the bytes a message writes gives the message back: reading
/// succeeds, and any message read from them has the same header and the
/// same questions and records, in the same order.
#[verifier::spinoff_prover]
pub proof fn lemma_message_roundtrip(m: DnsMessage)
    requires
        message_ok(m),
    ensures
        message_error(message_wire(m)) is None,
        forall|m2: DnsMessage| #[trigger] message_read(message_wire(m), m2) ==> m2.header == m.header
            && question_views(m2.questions@) == question_views(m.questions@)
            && record_views(m2.answers@) == record_views(m.answers@)
            && record_views(m2.authority@) == record_views(m.authority@)
            && record_views(m2.additional@) == record_views(m.additional@),
{
    let d = message_wire(m);
    lemma_message_layout(m);
    lemma_message_header(m);
    let q = questions_wire(m.questions@).len() as int;
    let a = records_wire(m.answers@).len() as int;
    let n = records_wire(m.authority@).len() as int;
    let o1: int = 12;
    lemma_read_questions(d, o1, m.questions@);
    lemma_read_records(d, o1 + q, m.answers@);
    lemma_read_records(d, o1 + q + a, m.authority@);
    lemma_read_records(d, o1 + q + a + n, m.additional@);
}

} // verus!
