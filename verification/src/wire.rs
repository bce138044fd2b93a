//! Protocol Buffers encoding of the log messages a worker streams to the
//! job server, written through the `protobuf` crate's output stream.

use vstd::prelude::*;
use vstd::utf8::{decode_utf8, encode_utf8, encode_utf8_decode_utf8};

verus! {

/// The base-128 varint encoding of a number: seven bits per byte, least
/// significant group first, the high bit set on every byte but the last.
pub open spec fn varint(v: nat) -> Seq<u8>
    decreases v,
{
    if v < 128 {
        seq![v as u8]
    } else {
        seq![((v % 128) + 128) as u8] + varint(v / 128)
    }
}

/// The key of a field: its number and wire type, as a varint.
pub open spec fn field_key(field_number: nat, wire_type: nat) -> Seq<u8> {
    varint(field_number * 8 + wire_type)
}

/// An unsigned 64-bit integer field (wire type 0).
pub open spec fn uint64_field(field_number: nat, value: nat) -> Seq<u8> {
    field_key(field_number, 0) + varint(value)
}

/// A string field (wire type 2): the key, the byte length of the UTF-8
/// text as a 32-bit varint, then the text.
pub open spec fn string_field(field_number: nat, text: Seq<char>) -> Seq<u8> {
    field_key(field_number, 2) + varint((encode_utf8(text).len() as u32) as nat) + encode_utf8(text)
}

/// The field numbers a protocol buffer field can have.
pub open spec fn valid_field_number(field_number: u32) -> bool {
    0 < field_number <= 0x1fffffff
}

/// The number a varint denotes: seven bits from each byte, least
/// significant group first.
pub open spec fn varint_value(bytes: Seq<u8>) -> nat
    decreases bytes.len(),
{
    if bytes.len() == 0 {
        0
    } else {
        (bytes[0] % 128) as nat + 128 * varint_value(bytes.drop_first())
    }
}

/// A complete varint: a final byte below 128, preceded only by bytes with
/// their high bit set, so a reader knows where it ends.
pub open spec fn varint_complete(bytes: Seq<u8>) -> bool {
    &&& bytes.len() > 0
    &&& bytes.last() < 128
    &&& forall|i: int| 0 <= i < bytes.len() - 1 ==> #[trigger] bytes[i] >= 128
}

/// Every number is written as a complete varint that reads back as that
/// number.
pub proof fn lemma_varint_reads_back(v: nat)
    ensures
        varint_value(varint(v)) == v,
        varint_complete(varint(v)),
    decreases v,
{
    if v >= 128 {
        lemma_varint_reads_back(v / 128);
        let rest = varint(v / 128);
        let b = varint(v);
        assert(b == seq![((v % 128) + 128) as u8] + rest);
        assert(b.drop_first() =~= rest);
        assert(b[0] == (v % 128) + 128);
        assert(b[0] % 128 == v % 128);
        assert(varint_value(b) == (b[0] % 128) as nat + 128 * varint_value(rest));
        assert(v == v % 128 + 128 * (v / 128));
        assert(b.last() == rest.last());
        assert forall|i: int| 0 <= i < b.len() - 1 implies #[trigger] b[i] >= 128 by {
            if i > 0 {
                assert(b[i] == rest[i - 1]);
            }
        }
    } else {
        let b = varint(v);
        assert(b == seq![v as u8]);
        assert(b.drop_first() =~= Seq::<u8>::empty());
        assert(varint_value(b) == (b[0] % 128) as nat + 128 * varint_value(b.drop_first()));
    }
}

/// Appends a `uint64` field through `protobuf::CodedOutputStream::vec`,
/// `write_uint64` and `flush`. The stream writes the field key and the
/// value as varints and, on a `Vec` target, appends them to what the vector
/// held; no error arises on that target, so the results are not inspected.
/// A field number outside `1..=0x1fffffff` makes the stream panic.
#[verifier::external_body]
fn write_uint64_field(out: &mut Vec<u8>, field_number: u32, value: u64)
    requires
        valid_field_number(field_number),
    ensures
        final(out)@ == old(out)@ + uint64_field(field_number as nat, value as nat),
{
    let mut os = protobuf::CodedOutputStream::vec(out);
    let _ = os.write_uint64(field_number, value);
    let _ = os.flush();
}

/// Appends a `string` field through `protobuf::CodedOutputStream::vec`,
/// `write_string` and `flush`. The stream writes the field key, the byte
/// length (cast to `u32`) and the UTF-8 bytes of the text, appending them to
/// what the vector held; no error arises on a `Vec` target, so the results
/// are not inspected. A field number outside `1..=0x1fffffff` makes the
/// stream panic.
#[verifier::external_body]
fn write_string_field(out: &mut Vec<u8>, field_number: u32, text: &str)
    requires
        valid_field_number(field_number),
    ensures
        final(out)@ == old(out)@ + string_field(field_number as nat, text@),
{
    let mut os = protobuf::CodedOutputStream::vec(out);
    let _ = os.write_string(field_number, text);
    let _ = os.flush();
}

/// Field numbers of a log chunk: the job, the line's sequence number and
/// the line itself.
pub const CHUNK_JOB_ID: u32 = 1;
pub const CHUNK_SEQ: u32 = 2;
pub const CHUNK_BODY: u32 = 3;

/// Field number of the job in a log-complete message.
pub const COMPLETE_JOB_ID: u32 = 1;

/// The encoded log chunk: job id, sequence number and body, in field order.
pub open spec fn log_chunk_bytes(job_id: u64, seq: u64, body: Seq<char>) -> Seq<u8> {
    uint64_field(CHUNK_JOB_ID as nat, job_id as nat) + uint64_field(CHUNK_SEQ as nat, seq as nat)
        + string_field(CHUNK_BODY as nat, body)
}

/// The encoded message that a job's log is complete.
pub open spec fn log_complete_bytes(job_id: u64) -> Seq<u8> {
    uint64_field(COMPLETE_JOB_ID as nat, job_id as nat)
}

/// A log chunk reads back as the job id, the sequence number and the whole
/// body: key 0x08 and the complete varint of the full 64-bit job id, key
/// 0x10 and that of the sequence number, then key 0x1a, the byte length of
/// the body and the UTF-8 bytes of the entire body, which decode to it.
pub proof fn lemma_log_chunk_reads_back(job_id: u64, seq: u64, body: Seq<char>)
    ensures
        ({
            let text = encode_utf8(body);
            &&& log_chunk_bytes(job_id, seq, body) == seq![0x08u8] + varint(job_id as nat)
                + seq![0x10u8] + varint(seq as nat) + seq![0x1au8] + varint(
                (text.len() as u32) as nat,
            ) + text
            &&& varint_value(varint(job_id as nat)) == job_id
            &&& varint_complete(varint(job_id as nat))
            &&& varint_value(varint(seq as nat)) == seq
            &&& varint_complete(varint(seq as nat))
            &&& varint_complete(varint((text.len() as u32) as nat))
            &&& text.len() < 0x1_0000_0000 ==> varint_value(varint((text.len() as u32) as nat))
                == text.len()
            &&& decode_utf8(text) == body
        }),
{
    let text = encode_utf8(body);
    assert(varint(8) == seq![8u8]);
    assert(varint(16) == seq![16u8]);
    assert(varint(26) == seq![26u8]);
    lemma_varint_reads_back(job_id as nat);
    lemma_varint_reads_back(seq as nat);
    lemma_varint_reads_back((text.len() as u32) as nat);
    encode_utf8_decode_utf8(body);
    assert(log_chunk_bytes(job_id, seq, body) =~= seq![0x08u8] + varint(job_id as nat)
        + seq![0x10u8] + varint(seq as nat) + seq![0x1au8] + varint((text.len() as u32) as nat)
        + text);
}

/// A log-complete message reads back as the full 64-bit job id: key 0x08
/// followed by the complete varint of the id.
pub proof fn lemma_log_complete_reads_back(job_id: u64)
    ensures
        log_complete_bytes(job_id) == seq![0x08u8] + varint(job_id as nat),
        log_complete_bytes(job_id)[0] == 0x08,
        log_complete_bytes(job_id).drop_first() == varint(job_id as nat),
        varint_value(log_complete_bytes(job_id).drop_first()) == job_id,
        varint_complete(log_complete_bytes(job_id).drop_first()),
{
    assert(varint(8) == seq![8u8]);
    lemma_varint_reads_back(job_id as nat);
    assert(log_complete_bytes(job_id) =~= seq![0x08u8] + varint(job_id as nat));
    assert(log_complete_bytes(job_id).drop_first() =~= varint(job_id as nat));
}

/// Encodes one chunk of a job's log.
pub fn encode_log_chunk(job_id: u64, seq: u64, body: &str) -> (r: Vec<u8>)
    ensures
        r@ == log_chunk_bytes(job_id, seq, body@),
        r@ == seq![0x08u8] + varint(job_id as nat) + seq![0x10u8] + varint(seq as nat) + seq![
            0x1au8,
        ] + varint((encode_utf8(body@).len() as u32) as nat) + encode_utf8(body@),
{
    proof { lemma_log_chunk_reads_back(job_id, seq, body@); }
    let mut out: Vec<u8> = Vec::new();
    write_uint64_field(&mut out, CHUNK_JOB_ID, job_id);
    write_uint64_field(&mut out, CHUNK_SEQ, seq);
    write_string_field(&mut out, CHUNK_BODY, body);
    assert(out@ =~= log_chunk_bytes(job_id, seq, body@));
    out
}

/// Encodes the message that a job's log is complete.
pub fn encode_log_complete(job_id: u64) -> (r: Vec<u8>)
    ensures
        r@ == log_complete_bytes(job_id),
        r@.len() > 1,
        r@[0] == 0x08,
        varint_value(r@.drop_first()) == job_id,
        varint_complete(r@.drop_first()),
{
    proof { lemma_log_complete_reads_back(job_id); }
    let mut out: Vec<u8> = Vec::new();
    write_uint64_field(&mut out, COMPLETE_JOB_ID, job_id);
    assert(out@ =~= log_complete_bytes(job_id));
    out
}

} // verus!
