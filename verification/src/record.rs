//! The record shipped for an event, its hash, and the body of a batch.

use crate::protocol::{AuditError, AuditErrorView};
use crate::text::join;
use sha2::Digest;
use vstd::prelude::*;

verus! {

/// `serde_json::Value`: the JSON value that an audit event converts to. Its
/// content is reached only through its encoding.
#[verifier::external_type_specification]
#[verifier::external_body]
pub struct ExJsonValue(serde_json::Value);

/// What `serde_json::to_vec` answers for a value: the bytes of its JSON text, or
/// the text of the error.
pub uninterp spec fn json_encoding(value: serde_json::Value) -> Result<Seq<u8>, Seq<char>>;

/// The SHA-256 digest of `data`, as `sha2::Sha256::digest` computes it.
pub uninterp spec fn sha256(data: Seq<u8>) -> Seq<u8>;

/// The lower-case hexadecimal digit for `n`, which is below 16.
pub open spec fn hex_digit(n: int) -> char {
    if n < 10 {
        (48 + n) as char
    } else {
        (87 + n) as char
    }
}

/// Two lower-case hexadecimal digits for each byte, the high half first.
pub open spec fn hex_text(bytes: Seq<u8>) -> Seq<char> {
    Seq::new(
        2 * bytes.len(),
        |i: int|
            if i % 2 == 0 {
                hex_digit(bytes[i / 2] as int / 16)
            } else {
                hex_digit(bytes[i / 2] as int % 16)
            },
    )
}

/// The hash that the receipt for a record carries.
pub open spec fn record_hash(record: Seq<u8>) -> Seq<char> {
    hex_text(sha256(record))
}

/// The error for an event that has no JSON text.
pub open spec fn unserializable(detail: Seq<char>) -> AuditErrorView {
    AuditErrorView::WriteFailed { reason: "serialize audit event: "@ + detail }
}

/// The record made of an encoded event, with its hash.
pub open spec fn sealed(encoded: Result<Seq<u8>, Seq<char>>) -> Result<
    (Seq<u8>, Seq<char>),
    AuditErrorView,
> {
    match encoded {
        Ok(record) => Ok((record, record_hash(record))),
        Err(detail) => Err(unserializable(detail)),
    }
}

/// The content of the outcome of encoding a value.
pub open spec fn encoding_outcome(encoded: Result<Vec<u8>, String>) -> Result<Seq<u8>, Seq<char>> {
    match encoded {
        Ok(bytes) => Ok(bytes@),
        Err(text) => Err(text@),
    }
}

/// The content of the outcome of sealing a record.
pub open spec fn sealing_outcome(record: Result<(Vec<u8>, String), AuditError>) -> Result<
    (Seq<u8>, Seq<char>),
    AuditErrorView,
> {
    match record {
        Ok((bytes, hash)) => Ok((bytes@, hash@)),
        Err(error) => Err(error@),
    }
}

/// Calls `serde_json::to_vec` on a JSON value. Claims that the answer, be it the
/// bytes or the text of the error, is a function of the value alone.
#[verifier::external_body]
fn encode_json(value: &serde_json::Value) -> (encoded: Result<Vec<u8>, String>)
    ensures
        encoding_outcome(encoded) == json_encoding(*value),
{
    serde_json::to_vec(value).map_err(|error| error.to_string())
}

/// Calls `sha2::Sha256::digest`. Claims that the digest is a function of the
/// data alone and is 32 bytes long.
#[verifier::external_body]
fn digest_sha256(data: &[u8]) -> (digest: Vec<u8>)
    ensures
        digest@ == sha256(data@),
        digest@.len() == 32,
{
    sha2::Sha256::digest(data).to_vec()
}

/// Calls `hex::encode`. Claims that the text is two lower-case hexadecimal
/// digits for each byte, in order.
#[verifier::external_body]
fn encode_hex(bytes: &[u8]) -> (text: String)
    ensures
        text@ == hex_text(bytes@),
{
    hex::encode(bytes)
}

/// The record for an event and its hash. `converted` is the JSON value that the
/// event converts to, or the text of the error of converting it.
pub fn serialize_event(converted: Result<serde_json::Value, String>) -> (record: Result<
    (Vec<u8>, String),
    AuditError,
>)
    ensures
        sealing_outcome(record) == sealed(
            match converted {
                Ok(value) => json_encoding(value),
                Err(text) => Err(text@),
            },
        ),
        record matches Ok((_, hash)) ==> hash@.len() == 64,
        match converted {
            Ok(value) => match json_encoding(value) {
                Ok(text) => record matches Ok((bytes, hash)) && bytes@ == text && hash@ == hex_text(
                    sha256(text),
                ),
                Err(detail) => record matches Err(AuditError::WriteFailed { reason }) && reason@
                    == "serialize audit event: "@ + detail,
            },
            Err(detail) => record matches Err(AuditError::WriteFailed { reason }) && reason@
                == "serialize audit event: "@ + detail@,
        },
{
    match converted {
        Ok(value) => seal_record(encode_json(&value)),
        Err(text) => seal_record(Err(text)),
    }
}

/// Pairs the JSON text of an event with its hash, and reports an event that has
/// no JSON text.
pub fn seal_record(encoded: Result<Vec<u8>, String>) -> (record: Result<
    (Vec<u8>, String),
    AuditError,
>)
    ensures
        sealing_outcome(record) == sealed(encoding_outcome(encoded)),
        record matches Ok((_, hash)) ==> hash@.len() == 64,
        match encoded {
            Ok(text) => record matches Ok((bytes, hash)) && bytes@ == text@ && hash@ == hex_text(
                sha256(text@),
            ),
            Err(detail) => record matches Err(AuditError::WriteFailed { reason }) && reason@
                == "serialize audit event: "@ + detail@,
        },
{
    match encoded {
        Ok(bytes) => {
            let digest = digest_sha256(bytes.as_slice());
            let hash = encode_hex(digest.as_slice());
            Ok((bytes, hash))
        },
        Err(detail) => Err(
            AuditError::WriteFailed { reason: join("serialize audit event: ", detail.as_str()) },
        ),
    }
}

/// The character `[`.
pub const OPEN_BRACKET: u8 = 0x5b;

/// The character `,`.
pub const COMMA: u8 = 0x2c;

/// The character `]`.
pub const CLOSE_BRACKET: u8 = 0x5d;

/// The records one after the other, with a comma between neighbours.
pub open spec fn comma_joined(records: Seq<Seq<u8>>) -> Seq<u8>
    decreases records.len(),
{
    if records.len() == 0 {
        Seq::empty()
    } else if records.len() == 1 {
        records[0]
    } else {
        comma_joined(records.drop_last()) + seq![COMMA] + records.last()
    }
}

/// The JSON array whose elements are the given JSON texts.
pub open spec fn json_array(records: Seq<Seq<u8>>) -> Seq<u8> {
    seq![OPEN_BRACKET] + comma_joined(records) + seq![CLOSE_BRACKET]
}

/// The contents of byte vectors.
pub open spec fn contents(records: Seq<Vec<u8>>) -> Seq<Seq<u8>> {
    records.map_values(|record: Vec<u8>| record@)
}

/// The body of a batch: a JSON array of the records, each verbatim.
pub fn array_body(records: &Vec<Vec<u8>>) -> (body: Vec<u8>)
    ensures
        body@ == json_array(contents(records@)),
{
    let ghost all = contents(records@);
    let mut body: Vec<u8> = Vec::new();
    body.push(OPEN_BRACKET);
    let mut i: usize = 0;
    while i < records.len()
        invariant
            all == contents(records@),
            i <= records@.len(),
            body@ == seq![OPEN_BRACKET] + comma_joined(all.take(i as int)),
        decreases records.len() - i,
    {
        if i > 0 {
            body.push(COMMA);
        }
        body.extend_from_slice(records[i].as_slice());
        proof {
            let next = all.take(i + 1);
            assert(next.drop_last() == all.take(i as int));
            assert(next.last() == records@[i as int]@);
            if i == 0 {
                assert(all.take(0) == Seq::<Seq<u8>>::empty());
            }
        }
        i = i + 1;
    }
    assert(all.take(i as int) == all);
    body.push(CLOSE_BRACKET);
    body
}

/// Where record `i` begins in the body: behind the bracket and, for each record
/// before it, the record and a comma.
pub open spec fn record_start(records: Seq<Seq<u8>>, i: int) -> int
    decreases i,
{
    if i <= 0 {
        1
    } else {
        record_start(records, i - 1) + records[i - 1].len() + 1
    }
}

/// The place of a record does not depend on the records from it on.
proof fn lemma_start_of_prefix(records: Seq<Seq<u8>>, i: int)
    requires
        0 <= i < records.len(),
    ensures
        record_start(records.drop_last(), i) == record_start(records, i),
        record_start(records, i) >= 1,
    decreases i,
{
    if i > 0 {
        lemma_start_of_prefix(records, i - 1);
    }
}

/// Where record `i` stands among the joined records.
proof fn lemma_joined(records: Seq<Seq<u8>>, i: int)
    requires
        0 <= i < records.len(),
    ensures
        comma_joined(records).len() == record_start(records, records.len() as int) - 2,
        record_start(records, i) >= 1,
        record_start(records, i) - 1 + records[i].len() <= comma_joined(records).len(),
        comma_joined(records).subrange(
            record_start(records, i) - 1,
            record_start(records, i) - 1 + records[i].len(),
        ) == records[i],
        i + 1 < records.len() ==> {
            &&& record_start(records, i) - 1 + records[i].len() < comma_joined(records).len()
            &&& comma_joined(records)[record_start(records, i) - 1 + records[i].len()] == COMMA
        },
        i + 1 == records.len() ==> record_start(records, i) - 1 + records[i].len()
            == comma_joined(records).len(),
    decreases records.len(),
{
    let n = records.len() as int;
    let whole = comma_joined(records);
    if n == 1 {
        reveal_with_fuel(record_start, 2);
        assert(whole.subrange(0, records[0].len() as int) == records[0]);
    } else {
        let front = records.drop_last();
        let joined = comma_joined(front);
        lemma_joined(front, n - 2);
        lemma_start_of_prefix(records, n - 1);
        lemma_start_of_prefix(records, i);
        assert(whole == joined + seq![COMMA] + records[n - 1]);
        if i == n - 1 {
            assert(whole.subrange(joined.len() as int + 1, whole.len() as int) == records[i]);
        } else {
            lemma_joined(front, i);
            let from = record_start(records, i) - 1;
            let to = from + records[i].len();
            assert(whole.subrange(from, to) == joined.subrange(from, to));
        }
    }
}

/// The body of a batch is a JSON array with every record verbatim, in order: it
/// opens with a bracket, record `i` stands at its place unchanged, and behind it
/// comes a comma, or the closing bracket for the last record.
pub proof fn law_records_verbatim(records: Seq<Seq<u8>>, i: int)
    requires
        0 <= i < records.len(),
    ensures
        record_start(records, i) == (if i == 0 {
            1
        } else {
            record_start(records, i - 1) + records[i - 1].len() + 1
        }),
        json_array(records)[0] == 0x5b,
        json_array(records)[record_start(records, i) + records[i].len()] == (if i + 1
            < records.len() {
            0x2cu8
        } else {
            0x5du8
        }),
        json_array(records)[0] == OPEN_BRACKET,
        1 <= record_start(records, i),
        record_start(records, i) + records[i].len() < json_array(records).len(),
        json_array(records).subrange(
            record_start(records, i),
            record_start(records, i) + records[i].len(),
        ) == records[i],
        json_array(records)[record_start(records, i) + records[i].len()] == (if i + 1
            < records.len() {
            COMMA
        } else {
            CLOSE_BRACKET
        }),
        i + 1 == records.len() ==> json_array(records).len() == record_start(records, i)
            + records[i].len() + 1,
{
    lemma_joined(records, i);
    let body = json_array(records);
    let joined = comma_joined(records);
    let from = record_start(records, i);
    let to = from + records[i].len();
    assert(body.subrange(from, to) == joined.subrange(from - 1, to - 1));
}

/// The array grows by one element at its end: the array of one record more is the
/// array without its closing bracket, a comma unless it was empty, the record as
/// it is, and a closing bracket. The array of no record is `[]`.
pub proof fn law_array_grows_at_its_end(records: Seq<Seq<u8>>, record: Seq<u8>)
    ensures
        json_array(Seq::<Seq<u8>>::empty()) == seq![0x5bu8, 0x5du8],
        json_array(records.push(record)) == json_array(records).drop_last() + (if records.len()
            == 0 {
            Seq::empty()
        } else {
            seq![0x2cu8]
        }) + record + seq![0x5du8],
{
    let more = records.push(record);
    assert(more.drop_last() == records);
    if records.len() == 0 {
        assert(more[0] == record);
        assert(comma_joined(records) == Seq::<u8>::empty());
    }
    assert(json_array(Seq::<Seq<u8>>::empty()) =~= seq![0x5bu8, 0x5du8]);
    assert(json_array(more) =~= json_array(records).drop_last() + (if records.len() == 0 {
        Seq::empty()
    } else {
        seq![0x2cu8]
    }) + record + seq![0x5du8]);
}

/// The body of a batch is the array of what the record buffers hold.
pub proof fn law_body_of_buffers(records: Seq<Vec<u8>>)
    ensures
        contents(records).len() == records.len(),
        forall|i: int|
            0 <= i < records.len() ==> #[trigger] contents(records)[i] == records[i]@,
{
}

/// A sealed record is the whole text that was encoded, and its hash is the
/// hexadecimal SHA-256 of that whole text. What could not be encoded is reported
/// with the encoder's own words.
pub proof fn law_hash_is_over_whole_record(
    encoded: Result<Vec<u8>, String>,
    record: Result<(Vec<u8>, String), AuditError>,
)
    requires
        sealing_outcome(record) == sealed(encoding_outcome(encoded)),
    ensures
        match encoded {
            Ok(text) => record matches Ok((bytes, hash)) && bytes@ == text@ && hash@ == hex_text(
                sha256(bytes@),
            ),
            Err(detail) => record matches Err(AuditError::WriteFailed { reason }) && reason@
                == "serialize audit event: "@ + detail@,
        },
{
}

/// The hash of a record is the hexadecimal SHA-256 of all of it.
pub proof fn law_record_hash(record: Seq<u8>)
    ensures
        record_hash(record) == hex_text(sha256(record)),
{
}

/// Hexadecimal text is two characters for each byte, from the sixteen digits in
/// lower case: the one for the high half, then the one for the low half.
pub proof fn law_hex_digits(bytes: Seq<u8>)
    ensures
        hex_text(bytes).len() == 2 * bytes.len(),
        forall|i: int|
            #![trigger bytes[i]]
            0 <= i < bytes.len() ==> hex_text(bytes)[2 * i] == "0123456789abcdef"@[bytes[i] as int
                / 16] && hex_text(bytes)[2 * i + 1] == "0123456789abcdef"@[bytes[i] as int % 16],
{
    reveal_strlit("0123456789abcdef");
    assert(forall|n: int| 0 <= n < 16 ==> #[trigger] hex_digit(n) == "0123456789abcdef"@[n]);
    assert forall|i: int|
        #![trigger bytes[i]]
        0 <= i < bytes.len() implies hex_text(bytes)[2 * i] == "0123456789abcdef"@[bytes[i] as int
        / 16] && hex_text(bytes)[2 * i + 1] == "0123456789abcdef"@[bytes[i] as int % 16] by {
        assert((2 * i) / 2 == i && (2 * i + 1) / 2 == i);
        assert(hex_text(bytes)[2 * i] == hex_digit(bytes[i] as int / 16));
        assert(hex_text(bytes)[2 * i + 1] == hex_digit(bytes[i] as int % 16));
    }
}

} // verus!
