//! The envelope codec: the records exchanged with the orchestrator travel
//! as raw byte strings, each holding an identifier and an opaque payload.
//!
//! Wire form: a 4-byte little-endian identifier length, the identifier,
//! then the payload (all remaining bytes). Decoding rejects malformed
//! input with a distinguishable [`DecodeError`]; encoding is total over
//! well-formed envelopes. No side effects.

use vstd::bytes::*;
use vstd::prelude::*;

use crate::error::DecodeError;

verus! {

/// The mathematical model of an envelope: both parts as byte sequences.
#[verifier::ext_equal]
pub ghost struct EnvelopeModel {
    pub id: Seq<u8>,
    pub payload: Seq<u8>,
}

/// One record as exchanged with the orchestrator: an identifier, unique
/// per record within the collection, and an opaque payload. Envelopes are
/// immutable once received.
pub struct Envelope {
    pub id: Vec<u8>,
    pub payload: Vec<u8>,
}

impl View for Envelope {
    type V = EnvelopeModel;

    open spec fn view(&self) -> EnvelopeModel {
        EnvelopeModel { id: self.id@, payload: self.payload@ }
    }
}

impl Envelope {
    pub fn new(id: Vec<u8>, payload: Vec<u8>) -> (e: Envelope)
        ensures
            e@ == (EnvelopeModel { id: id@, payload: payload@ }),
    {
        Envelope { id, payload }
    }

}

/// An envelope the codec can put on the wire: the identifier is nonempty
/// and its length fits the header's 32-bit field.
pub open spec fn well_formed(e: EnvelopeModel) -> bool {
    1 <= e.id.len() <= u32::MAX
}

/// What `encode` returns: header, identifier, payload.
pub open spec fn spec_encode(e: EnvelopeModel) -> Seq<u8>
    recommends
        well_formed(e),
{
    spec_u32_to_le_bytes(e.id.len() as u32) + e.id + e.payload
}

/// What `decode` returns on any raw input.
pub open spec fn spec_decode(raw: Seq<u8>) -> Result<EnvelopeModel, DecodeError> {
    if raw.len() < 4 {
        Err(DecodeError::Truncated)
    } else {
        let n = spec_u32_from_le_bytes(raw.subrange(0, 4)) as int;
        if n > raw.len() - 4 {
            Err(DecodeError::IdOutOfBounds)
        } else if n == 0 {
            Err(DecodeError::EmptyId)
        } else {
            Ok(
                EnvelopeModel {
                    id: raw.subrange(4, 4 + n),
                    payload: raw.subrange(4 + n, raw.len() as int),
                },
            )
        }
    }
}

/// Copies a byte vector; the copy has the same contents.
pub fn clone_bytes(v: &Vec<u8>) -> (r: Vec<u8>)
    ensures
        r@ == v@,
{
    let mut r: Vec<u8> = Vec::new();
    let mut i: usize = 0;
    while i < v.len()
        invariant
            i <= v.len(),
            r@ == v@.subrange(0, i as int),
        decreases v.len() - i,
    {
        r.push(v[i]);
        proof {
            assert(r@ =~= v@.subrange(0, i + 1 as int));
        }
        i = i + 1;
    }
    proof {
        assert(r@ =~= v@);
    }
    r
}

/// Whether two byte strings hold the same bytes.
pub fn bytes_eq(a: &Vec<u8>, b: &Vec<u8>) -> (r: bool)
    ensures
        r == (a@ == b@),
{
    if a.len() != b.len() {
        proof {
            assert(a@.len() != b@.len());
        }
        return false;
    }
    let mut i: usize = 0;
    while i < a.len()
        invariant
            i <= a.len(),
            a@.len() == b@.len(),
            forall|j: int| 0 <= j < i ==> a@[j] == b@[j],
        decreases a.len() - i,
    {
        if a[i] != b[i] {
            proof {
                assert(a@[i as int] != b@[i as int]);
            }
            return false;
        }
        i = i + 1;
    }
    proof {
        assert(a@ =~= b@);
    }
    true
}

/// Appends all of `src` to `dst`.
fn push_bytes(dst: &mut Vec<u8>, src: &Vec<u8>)
    ensures
        final(dst)@ == old(dst)@ + src@,
{
    let ghost dst0 = dst@;
    let mut i: usize = 0;
    while i < src.len()
        invariant
            i <= src.len(),
            dst@ == dst0 + src@.subrange(0, i as int),
        decreases src.len() - i,
    {
        dst.push(src[i]);
        proof {
            assert(dst@ =~= dst0 + src@.subrange(0, i + 1 as int));
        }
        i = i + 1;
    }
    proof {
        assert(dst@ =~= dst0 + src@);
    }
}

/// Wraps an envelope for the wire.
pub fn encode(e: &Envelope) -> (raw: Vec<u8>)
    requires
        well_formed(e@),
        e@.id.len() + e@.payload.len() + 4 <= usize::MAX,
    ensures
        raw@ == spec_encode(e@),
{
    let mut raw = u32_to_le_bytes(e.id.len() as u32);
    push_bytes(&mut raw, &e.id);
    push_bytes(&mut raw, &e.payload);
    raw
}

/// Unwraps a raw record, rejecting malformed or truncated input with a
/// distinguishable error rather than panicking.
pub fn decode(raw: &Vec<u8>) -> (r: Result<Envelope, DecodeError>)
    ensures
        (r is Ok) == (spec_decode(raw@) is Ok),
        r is Ok ==> r->Ok_0@ == spec_decode(raw@)->Ok_0,
        r is Err ==> r->Err_0 == spec_decode(raw@)->Err_0,
{
    if raw.len() < 4 {
        return Err(DecodeError::Truncated);
    }
    let header: &[u8] = &raw.as_slice()[0..4];
    proof {
        assert(header@ =~= raw@.subrange(0, 4));
    }
    let n32 = u32_from_le_bytes(header);
    let n = n32 as usize;
    if n > raw.len() - 4 {
        return Err(DecodeError::IdOutOfBounds);
    }
    if n == 0 {
        return Err(DecodeError::EmptyId);
    }
    let mut id: Vec<u8> = Vec::new();
    let end: usize = 4 + n;
    let mut i: usize = 4;
    while i < end
        invariant
            4 <= i <= end,
            end == 4 + n,
            end <= raw@.len(),
            id@ == raw@.subrange(4, i as int),
        decreases end - i,
    {
        id.push(raw[i]);
        proof {
            assert(id@ =~= raw@.subrange(4, i + 1 as int));
        }
        i = i + 1;
    }
    let mut payload: Vec<u8> = Vec::new();
    let mut j: usize = end;
    while j < raw.len()
        invariant
            4 + n <= j <= raw@.len(),
            payload@ == raw@.subrange(4 + n as int, j as int),
        decreases raw.len() - j,
    {
        payload.push(raw[j]);
        proof {
            assert(payload@ =~= raw@.subrange(4 + n as int, j + 1 as int));
        }
        j = j + 1;
    }
    Ok(Envelope { id, payload })
}

/// A batch of raw records as byte sequences, in order.
pub open spec fn raws_of(s: Seq<Vec<u8>>) -> Seq<Seq<u8>> {
    s.map_values(|v: Vec<u8>| v@)
}

/// Whether every raw record of the batch decodes.
pub open spec fn all_decode(raws: Seq<Seq<u8>>) -> bool {
    forall|i: int| 0 <= i < raws.len() ==> spec_decode(#[trigger] raws[i]) is Ok
}

/// The batch decoded, in order; meaningful when `all_decode` holds.
pub open spec fn decoded_batch(raws: Seq<Seq<u8>>) -> Seq<EnvelopeModel> {
    raws.map_values(|r: Seq<u8>| spec_decode(r)->Ok_0)
}

/// The error of the first raw record that does not decode; meaningful
/// when `all_decode` does not hold.
pub open spec fn first_decode_error(raws: Seq<Seq<u8>>) -> DecodeError
    decreases raws.len(),
{
    if raws.len() == 0 {
        DecodeError::Truncated
    } else if spec_decode(raws[0]) is Err {
        spec_decode(raws[0])->Err_0
    } else {
        first_decode_error(raws.drop_first())
    }
}

/// When everything before position `i` decodes and the record at `i`
/// does not, its error is the batch's first decode error.
pub proof fn lemma_first_decode_error(raws: Seq<Seq<u8>>, i: int)
    requires
        0 <= i < raws.len(),
        forall|k: int| 0 <= k < i ==> spec_decode(#[trigger] raws[k]) is Ok,
        spec_decode(raws[i]) is Err,
    ensures
        !all_decode(raws),
        first_decode_error(raws) == spec_decode(raws[i])->Err_0,
    decreases i,
{
    if i > 0 {
        let rest = raws.drop_first();
        assert(forall|k: int| 0 <= k < i - 1 ==> spec_decode(#[trigger] rest[k]) is Ok);
        lemma_first_decode_error(rest, i - 1);
    }
}

/// Whether some entry of `ids` holds the same bytes as `id`.
pub fn contains_bytes(ids: &Vec<Vec<u8>>, id: &Vec<u8>) -> (b: bool)
    ensures
        b == raws_of(ids@).contains(id@),
{
    let mut i: usize = 0;
    while i < ids.len()
        invariant
            i <= ids@.len(),
            forall|k: int| 0 <= k < i ==> raws_of(ids@)[k] != id@,
        decreases ids.len() - i,
    {
        if bytes_eq(&ids[i], id) {
            proof {
                assert(raws_of(ids@)[i as int] == id@);
            }
            return true;
        }
        i = i + 1;
    }
    proof {
        assert(!raws_of(ids@).contains(id@));
    }
    false
}

/// Law: decoding an encoded well-formed envelope yields it back unchanged
/// (the codec round-trips).
pub proof fn lemma_encode_decode(e: EnvelopeModel)
    requires
        well_formed(e),
    ensures
        spec_decode(spec_encode(e)) == Ok::<EnvelopeModel, DecodeError>(e),
{
    lemma_auto_spec_u32_to_from_le_bytes();
    let raw = spec_encode(e);
    let header = spec_u32_to_le_bytes(e.id.len() as u32);
    assert(raw.subrange(0, 4) =~= header);
    let n = spec_u32_from_le_bytes(raw.subrange(0, 4)) as int;
    assert(n == e.id.len());
    assert(raw.subrange(4, 4 + n) =~= e.id);
    assert(raw.subrange(4 + n, raw.len() as int) =~= e.payload);
    assert(spec_decode(raw)->Ok_0 =~= e);
}

} // verus!
