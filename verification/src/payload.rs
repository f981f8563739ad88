//! Payload capture: materializing a finite stream of fallible byte
//! chunks into one addressable blob, or determining that it is empty.

use vstd::prelude::*;
use crate::update::{PayloadData, UpdateError};

verus! {

/// Every element of the stream is a byte chunk; no transport failure.
pub open spec fn all_bytes(chunks: Seq<PayloadData>) -> bool {
    forall|i: int| 0 <= i < chunks.len() ==> chunks[i] is Bytes
}

/// The concatenation, in receive order, of the stream's byte chunks.
pub open spec fn concat_bytes(chunks: Seq<PayloadData>) -> Seq<u8>
    decreases chunks.len(),
{
    if chunks.len() == 0 {
        Seq::empty()
    } else {
        concat_bytes(chunks.drop_last()) + (match chunks.last() {
            PayloadData::Bytes(b) => b@,
            PayloadData::TransportFailed(_) => Seq::empty(),
        })
    }
}

/// The message of the first transport failure in the stream, or the
/// empty message where there is none.
pub open spec fn first_error_msg(chunks: Seq<PayloadData>) -> Seq<char>
    decreases chunks.len(),
{
    if chunks.len() == 0 {
        Seq::empty()
    } else {
        match chunks[0] {
            PayloadData::TransportFailed(m) => m@,
            PayloadData::Bytes(_) => first_error_msg(chunks.subrange(1, chunks.len() as int)),
        }
    }
}

proof fn lemma_first_error_at(chunks: Seq<PayloadData>, i: int)
    requires
        0 <= i < chunks.len(),
        forall|j: int| 0 <= j < i ==> chunks[j] is Bytes,
        chunks[i] is TransportFailed,
    ensures
        first_error_msg(chunks) == chunks[i]->TransportFailed_0@,
    decreases i,
{
    if i == 0 {
    } else {
        let rest = chunks.subrange(1, chunks.len() as int);
        assert(rest[i - 1] == chunks[i]);
        assert(forall|j: int| 0 <= j < i - 1 ==> rest[j] == chunks[j + 1]);
        lemma_first_error_at(rest, i - 1);
    }
}

/// Consumes one payload stream and materializes it.
///
/// Capture succeeds exactly when no chunk failed in transit. A stream
/// whose total byte length is zero yields no blob content at all; a
/// non-empty stream yields the concatenation of its chunks in receive
/// order, positioned for re-reading from the start. The first transport
/// failure aborts capture and surfaces that failure's message.
pub fn capture_payload(chunks: &Vec<PayloadData>) -> (r: Result<Option<Vec<u8>>, UpdateError>)
    ensures
        r is Ok <==> all_bytes(chunks@),
        r matches Ok(c) ==> (c is None <==> concat_bytes(chunks@).len() == 0),
        r matches Ok(Some(b)) ==> b@ == concat_bytes(chunks@),
        r matches Err(e) ==> e matches UpdateError::Transport(m) && m@ == first_error_msg(chunks@),
{
    let mut buf: Vec<u8> = Vec::new();
    let mut i: usize = 0;
    while i < chunks.len()
        invariant
            0 <= i <= chunks.len(),
            forall|j: int| 0 <= j < i ==> chunks@[j] is Bytes,
            buf@ == concat_bytes(chunks@.take(i as int)),
        decreases chunks.len() - i,
    {
        match &chunks[i] {
            PayloadData::Bytes(b) => {
                let mut j: usize = 0;
                while j < b.len()
                    invariant
                        0 <= j <= b.len(),
                        buf@ == concat_bytes(chunks@.take(i as int)) + b@.take(j as int),
                    decreases b.len() - j,
                {
                    buf.push(b[j]);
                    assert(b@.take(j + 1) == b@.take(j as int).push(b@[j as int]));
                    j += 1;
                }
                proof {
                    let t = chunks@.take(i + 1);
                    assert(t.drop_last() == chunks@.take(i as int));
                    assert(t.last() == chunks@[i as int]);
                    assert(b@.take(b@.len() as int) == b@);
                }
            },
            PayloadData::TransportFailed(m) => {
                proof {
                    lemma_first_error_at(chunks@, i as int);
                }
                return Err(UpdateError::Transport(m.clone()));
            },
        }
        i += 1;
    }
    proof {
        assert(chunks@.take(chunks@.len() as int) == chunks@);
    }
    if buf.len() == 0 {
        Ok(None)
    } else {
        Ok(Some(buf))
    }
}

/// Relies on `uuid::Uuid::new_v4`: a freshly generated random
/// identifier for a captured payload blob; nothing is promised of its
/// value.
#[verifier::external_body]
pub(crate) fn fresh_blob_id() -> u128 {
    uuid::Uuid::new_v4().as_u128()
}

} // verus!
