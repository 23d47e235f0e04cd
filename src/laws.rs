use vstd::bytes::spec_u32_to_le_bytes;
use vstd::prelude::*;

use crate::arrays::{counted_wire, deep_seq, elems_wire, ArrayRoundTrip};
use crate::blob::null_wire;
use crate::error::StatusCode;
use crate::framing::framed;
use crate::model::{
    le_i32,
    lemma_holds_split,
    lemma_i32_round_trip,
    lemma_put_holds,
    lemma_put_put,
    ParcelState,
};
use crate::parcelable::{Deserialize, RoundTrip, Serialize};
use crate::strings::lemma_str_at;

verus! {

/// Writing a value at a position, moving the cursor back there and reading
/// gives the value back, and the cursor ends just past it.
pub proof fn lemma_round_trip<T: RoundTrip>(v: &T, s: ParcelState)
    requires
        s.wf(),
        s.fits(v.wire().len()),
    ensures
        T::decode(s.put(v.wire()).seek(s.pos))
            == (Ok::<T::V, StatusCode>(v.deep_view()), s.pos + v.wire().len()),
{
    let t = s.put(v.wire());
    lemma_put_holds(s, v.wire());
    T::lemma_decode_wire(v, t.seek(s.pos));
}

/// A string slice written at a position reads back from there as a
/// `String` with the same characters.
pub proof fn lemma_str_round_trip(v: &str, s: ParcelState)
    requires
        s.wf(),
        s.fits(v.wire().len()),
    ensures
        String::decode(s.put(v.wire()).seek(s.pos)) == (Ok::<Seq<char>, StatusCode>(v@), s.pos
            + v.wire().len()),
{
    lemma_put_holds(s, v.wire());
    lemma_str_at(v@, s.put(v.wire()).seek(s.pos));
}

/// A slice written at a position reads back from there as a `Vec` with the
/// same elements.
pub proof fn lemma_slice_round_trip<T: ArrayRoundTrip>(v: &[T], s: ParcelState)
    requires
        s.wf(),
        s.fits(v.wire().len()),
    ensures
        Vec::<T>::decode(s.put(v.wire()).seek(s.pos)) == (Ok::<Seq<T::V>, StatusCode>(
            deep_seq(v@),
        ), s.pos + v.wire().len()),
{
    lemma_put_holds(s, v.wire());
    T::lemma_decode_array_wire(v@, s.put(v.wire()).seek(s.pos));
}

proof fn lemma_i32_elems_len(q: Seq<i32>)
    ensures
        elems_wire(q).len() == 4 * q.len(),
    decreases q.len(),
{
    if q.len() > 0 {
        lemma_i32_elems_len(q.drop_last());
        q.last().lemma_wire_nonempty();
        vstd::bytes::lemma_auto_spec_u32_to_from_le_bytes();
        let u = #[verifier::truncate] (q.last() as u32);
        assert(spec_u32_to_le_bytes(u).len() == 4);
    }
}

/// Writing `n` values of type `i32` as a sized block takes `4 + 4 + 4 * n`
/// bytes: the block's length, the count and the elements. The cursor ends
/// that far past the start, and the length read at the start is that many
/// bytes.
pub proof fn lemma_sized_write_framing(s: ParcelState, q: Seq<i32>)
    requires
        s.wf(),
        s.fits(8 + 4 * q.len()),
    ensures
        counted_wire(q).len() == 4 + 4 * q.len(),
        ({
            let done = framed(s.put(le_i32(0)).put(counted_wire(q)), s.pos);
            &&& done.pos == s.pos + 8 + 4 * q.len()
            &&& i32::decode(done.seek(s.pos))
                == (Ok::<i32, StatusCode>((8 + 4 * q.len()) as i32), s.pos + 4)
            &&& done.holds_at(s.pos + 4int, counted_wire(q))
        }),
{
    vstd::bytes::lemma_auto_spec_u32_to_from_le_bytes();
    lemma_i32_elems_len(q);
    let x = #[verifier::truncate] (q.len() as i32);
    lemma_i32_round_trip(x);
    lemma_i32_round_trip(0);
    let body = counted_wire(q);
    let t = s.put(le_i32(0)).put(body);
    lemma_put_put(s, le_i32(0), body);
    lemma_put_holds(s, le_i32(0) + body);
    lemma_holds_split(t, s.pos as int, le_i32(0), body);
    let len = (8 + 4 * q.len()) as i32;
    lemma_i32_round_trip(len);
    let done = framed(t, s.pos);
    assert(done.data.subrange(s.pos + 4int, s.pos + 4 + body.len() as int) =~= t.data.subrange(s.pos + 4int, s.pos + 4 + body.len() as int));
    assert(done.data.subrange(s.pos as int, s.pos + 4int) =~= le_i32(len));
    lemma_i32_round_trip(len);
    vstd::bytes::lemma_auto_spec_u32_to_from_le_bytes();
    let u = #[verifier::truncate] (len as u32);
    assert(spec_u32_to_le_bytes(u).len() == 4);
}

/// A copy with the same data reads as its source: from the same position
/// every read gives the same value and moves to the same place.
pub proof fn lemma_copy_reads_same<T: Deserialize>(source: ParcelState, copy: ParcelState, pos: nat)
    requires
        copy.data == source.data,
    ensures
        T::decode(copy.seek(pos)) == T::decode(source.seek(pos)),
{
    assert(copy.seek(pos) == source.seek(pos));
}

/// "No sequence" and "an empty sequence" are told apart: the first reads
/// back as absent, the second as present with no elements.
pub proof fn lemma_null_sequence_distinct<T: ArrayRoundTrip>(s: ParcelState)
    requires
        s.wf(),
        s.fits(4),
        s.fits(T::array_wire(Seq::<T>::empty()).len()),
    ensures
        T::decode_array(s.put(null_wire()).seek(s.pos)).0
            == Ok::<Option<Seq<T::V>>, StatusCode>(None),
        T::decode_array(s.put(T::array_wire(Seq::<T>::empty())).seek(s.pos)).0
            == Ok::<Option<Seq<T::V>>, StatusCode>(Some(Seq::<T::V>::empty())),
{
    vstd::bytes::lemma_auto_spec_u32_to_from_le_bytes();
    let u = #[verifier::truncate] ((-1i32) as u32);
    assert(spec_u32_to_le_bytes(u).len() == 4);
    lemma_put_holds(s, null_wire());
    T::lemma_decode_array_null(s.put(null_wire()).seek(s.pos));
    let e = Seq::<T>::empty();
    lemma_put_holds(s, T::array_wire(e));
    T::lemma_decode_array_wire(e, s.put(T::array_wire(e)).seek(s.pos));
    assert(deep_seq(e) =~= Seq::<T::V>::empty());
}

} // verus!
