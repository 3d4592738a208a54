//! Encoded payloads, held in the `bytes` crate's reference-counted buffers.

use bytes::{Bytes, BytesMut};
use vstd::prelude::*;

verus! {

/// [`bytes::Bytes`], an immutable reference-counted run of bytes.
#[verifier::external_type_specification]
#[verifier::external_body]
pub struct ExBytes(bytes::Bytes);

/// [`bytes::BytesMut`], a growable run of bytes that freezes into a `Bytes`.
#[verifier::external_type_specification]
#[verifier::external_body]
pub struct ExBytesMut(bytes::BytesMut);

/// The bytes a `Bytes` holds.
pub uninterp spec fn bytes_of(bytes: Bytes) -> Seq<u8>;

/// The bytes a `BytesMut` holds so far.
pub uninterp spec fn bytes_mut_of(bytes: BytesMut) -> Seq<u8>;

/// How many bytes a `BytesMut` was made to hold without growing.
pub uninterp spec fn bytes_mut_made_for(bytes: BytesMut) -> nat;

/// `Bytes::copy_from_slice` holds exactly the bytes of the slice.
pub assume_specification[ Bytes::copy_from_slice ](data: &[u8]) -> (r: Bytes)
    ensures
        bytes_of(r) == data@,
;

/// `Bytes::len` counts the bytes held.
pub assume_specification[ Bytes::len ](bytes: &Bytes) -> (len: usize)
    ensures
        len == bytes_of(*bytes).len(),
;

/// `Bytes::is_empty` tells whether no bytes are held.
pub assume_specification[ Bytes::is_empty ](bytes: &Bytes) -> (empty: bool)
    ensures
        empty == (bytes_of(*bytes).len() == 0),
;

/// A `Bytes` dereferences to the bytes it holds.
pub assume_specification[ <Bytes as core::ops::Deref>::deref ](bytes: &Bytes) -> (r: &[u8])
    ensures
        r@ == bytes_of(*bytes),
;

/// `BytesMut::with_capacity` starts out empty, made to hold that many bytes. It panics
/// on a capacity past `isize::MAX`.
pub assume_specification[ BytesMut::with_capacity ](capacity: usize) -> (r: BytesMut)
    requires
        capacity <= isize::MAX,
    ensures
        bytes_mut_of(r) == Seq::<u8>::empty(),
        bytes_mut_made_for(r) == capacity,
;

/// `BytesMut::extend_from_slice` appends the bytes of the slice. Nothing is said of a
/// buffer that would have to grow, which doubles what it holds and can panic.
pub assume_specification[ BytesMut::extend_from_slice ](bytes: &mut BytesMut, extend: &[u8])
    requires
        bytes_mut_of(*old(bytes)).len() + extend@.len() <= bytes_mut_made_for(*old(bytes)),
    ensures
        bytes_mut_of(*final(bytes)) == bytes_mut_of(*old(bytes)) + extend@,
        bytes_mut_made_for(*final(bytes)) == bytes_mut_made_for(*old(bytes)),
;

/// `BytesMut::freeze` keeps the bytes.
pub assume_specification[ BytesMut::freeze ](bytes: BytesMut) -> (r: Bytes)
    ensures
        bytes_of(r) == bytes_mut_of(bytes),
;

/// Concatenate two pieces of one access unit, which are already Annex-B and so
/// need nothing between them.
pub fn join(header: &[u8], payload: &[u8]) -> (joined: Bytes)
    requires
        header@.len() + payload@.len() <= isize::MAX,
    ensures
        bytes_of(joined) == header@ + payload@,
{
    let mut joined = BytesMut::with_capacity(header.len() + payload.len());
    joined.extend_from_slice(header);
    joined.extend_from_slice(payload);
    joined.freeze()
}

/// The length of `buffer` without its trailing zeroes.
pub open spec fn trimmed_len(buffer: Seq<u8>) -> nat
    decreases buffer.len(),
{
    if buffer.len() == 0 {
        0
    } else if buffer.last() != 0 {
        buffer.len()
    } else {
        trimmed_len(buffer.drop_last())
    }
}

/// Trimming only shortens.
pub proof fn lemma_trimmed_len(buffer: Seq<u8>)
    ensures
        trimmed_len(buffer) <= buffer.len(),
    decreases buffer.len(),
{
    if buffer.len() > 0 && buffer.last() == 0 {
        lemma_trimmed_len(buffer.drop_last());
    }
}

/// What a coded buffer holds: the bytes the driver says it used, as far as the
/// buffer goes, without the zeroes it pads them with.
pub open spec fn coded_bytes(buffer: Seq<u8>, bytesused: u32) -> Seq<u8> {
    let used = if bytesused < buffer.len() {
        bytesused as int
    } else {
        buffer.len() as int
    };
    buffer.subrange(0, trimmed_len(buffer.subrange(0, used)) as int)
}

/// Copy an access unit out of a coded buffer, without the driver's padding.
///
/// Trailing zeroes past the last NAL are `trailing_zero_8bits`, which a decoder
/// discards, and some drivers pad a coded buffer with them rather than reporting
/// the exact length. Dropping them is only safe because the profile is
/// constrained baseline, hence CAVLC: a CABAC stream can carry meaningful
/// `cabac_zero_words` in the same position.
pub fn access_unit(buffer: &[u8], bytesused: u32) -> (unit: Bytes)
    ensures
        bytes_of(unit) == coded_bytes(buffer@, bytesused),
{
    let used = if (bytesused as u64) < buffer.len() as u64 {
        bytesused as usize
    } else {
        buffer.len()
    };
    let mut end: usize = used;
    while end > 0 && buffer[end - 1] == 0
        invariant
            end <= used <= buffer@.len(),
            trimmed_len(buffer@.subrange(0, used as int)) == trimmed_len(
                buffer@.subrange(0, end as int),
            ),
        decreases end,
    {
        assert(buffer@.subrange(0, end as int).drop_last() =~= buffer@.subrange(0, end - 1));
        end = end - 1;
    }
    Bytes::copy_from_slice(vstd::slice::slice_subrange(buffer, 0, end))
}

/// What is taken out of a coded buffer starts where the buffer does and loses nothing but
/// the zeroes at its end: it ends in a byte that is not zero, if it holds any, and every
/// byte the driver used past it is zero.
pub proof fn law_only_trailing_zeroes_are_dropped(buffer: Seq<u8>, bytesused: u32)
    ensures
        ({
            let unit = coded_bytes(buffer, bytesused);
            &&& unit.len() <= buffer.len()
            &&& unit.len() <= bytesused
            &&& forall|i: int| 0 <= i < unit.len() ==> (#[trigger] unit[i]) == buffer[i]
            &&& unit.len() > 0 ==> buffer[unit.len() - 1] != 0
            &&& forall|i: int|
                unit.len() <= i < buffer.len() && i < bytesused ==> (#[trigger] buffer[i]) == 0
        }),
{
    let used = if bytesused < buffer.len() {
        bytesused as int
    } else {
        buffer.len() as int
    };
    let front = buffer.subrange(0, used);
    lemma_trimmed(front);
    assert forall|i: int|
        coded_bytes(buffer, bytesused).len() <= i < buffer.len() && i < bytesused implies (
    #[trigger] buffer[i]) == 0 by {
        assert(front[i] == buffer[i]);
    }
}

/// What is trimmed is zero, and what is left does not end in one.
proof fn lemma_trimmed(buffer: Seq<u8>)
    ensures
        trimmed_len(buffer) <= buffer.len(),
        trimmed_len(buffer) > 0 ==> buffer[trimmed_len(buffer) - 1] != 0,
        forall|i: int| trimmed_len(buffer) <= i < buffer.len() ==> (#[trigger] buffer[i]) == 0,
    decreases buffer.len(),
{
    if buffer.len() > 0 && buffer.last() == 0 {
        let rest = buffer.drop_last();
        lemma_trimmed(rest);
        assert forall|i: int| trimmed_len(buffer) <= i < buffer.len() implies (
        #[trigger] buffer[i]) == 0 by {
            if i < rest.len() {
                assert(rest[i] == buffer[i]);
            }
        }
    }
}

} // verus!
