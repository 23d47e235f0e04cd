use vstd::bytes::spec_u32_to_le_bytes;
use vstd::prelude::*;

use crate::blob::{
    blob_wire,
    decode_blob,
    lemma_blob_at,
    lemma_null_blob_at,
    null_wire,
    read_blob,
    write_blob,
};
use crate::error::{Result, StatusCode};
use crate::model::{lemma_holds_split, lemma_put_put, le_i32, ParcelState, MAX_PARCEL_SIZE};
use crate::parcel::Parcel;
use crate::parcelable::{
    decode_word, lemma_word_at, read_word, result_view, write_word, Decoded, Deserialize,
    RoundTrip, Serialize,
};

verus! {

/// The encodings of the elements of `q`, one after another.
pub open spec fn elems_wire<T: Serialize>(q: Seq<T>) -> Seq<u8>
    decreases q.len(),
{
    if q.len() == 0 {
        Seq::empty()
    } else {
        elems_wire(q.drop_last()) + q.last().wire()
    }
}

/// A sequence written element by element: its length as an `i32`, then the
/// elements.
pub open spec fn counted_wire<T: Serialize>(q: Seq<T>) -> Seq<u8> {
    le_i32(#[verifier::truncate] (q.len() as i32)) + elems_wire(q)
}

/// The models of the elements of `q`.
pub open spec fn deep_seq<T: DeepView>(q: Seq<T>) -> Seq<T::V> {
    Seq::new(q.len(), |i: int| q[i].deep_view())
}

/// Reading `n` elements one after another from offset `pos` of `data`.
pub open spec fn decode_elems<T: Deserialize>(data: Seq<u8>, pos: nat, n: nat) -> Decoded<
    Seq<T::V>,
>
    decreases n,
{
    if n == 0 {
        (Ok(Seq::empty()), pos)
    } else {
        let prev = decode_elems::<T>(data, pos, (n - 1) as nat);
        match prev.0 {
            Err(e) => (Err(e), prev.1),
            Ok(v) => {
                let d = T::decode(ParcelState { data, pos: prev.1 });
                match d.0 {
                    Ok(x) => (Ok(v.push(x)), d.1),
                    Err(e) => (Err(e), d.1),
                }
            },
        }
    }
}

/// Reading a sequence written element by element: absent where the length
/// is negative, `NOT_ENOUGH_DATA` where it exceeds the bytes that remain.
pub open spec fn decode_counted<T: Deserialize>(s: ParcelState) -> Decoded<Option<Seq<T::V>>> {
    match decode_word(s).0 {
        Err(e) => (Err(e), s.pos),
        Ok(w) => {
            let l = #[verifier::truncate] (w as i32);
            let p = (s.pos + 4) as nat;
            if l < 0 {
                (Ok(None), p)
            } else if l > s.data.len() - p {
                (Err(StatusCode::NOT_ENOUGH_DATA), p)
            } else {
                match decode_elems::<T>(s.data, p, l as nat) {
                    (Ok(v), q) => (Ok(Some(v)), q),
                    (Err(e), q) => (Err(e), q),
                }
            }
        },
    }
}

proof fn lemma_elems_len<T: Serialize>(q: Seq<T>, k: int)
    requires
        0 <= k <= q.len(),
    ensures
        elems_wire(q.take(k)).len() <= elems_wire(q).len(),
        elems_wire(q).len() >= q.len(),
    decreases q.len(),
{
    if q.len() > 0 {
        q.last().lemma_wire_nonempty();
        if k == q.len() {
            assert(q.take(k) =~= q);
            lemma_elems_len(q.drop_last(), 0);
        } else {
            assert(q.take(k) =~= q.drop_last().take(k));
            lemma_elems_len(q.drop_last(), k);
        }
    } else {
        assert(q.take(k) =~= q);
    }
}

proof fn lemma_elems_err<T: Deserialize>(data: Seq<u8>, pos: nat, k: nat, n: nat, e: StatusCode)
    requires
        k <= n,
        decode_elems::<T>(data, pos, k).0 == Err::<Seq<T::V>, StatusCode>(e),
    ensures
        decode_elems::<T>(data, pos, n).0 == Err::<Seq<T::V>, StatusCode>(e),
    decreases n - k,
{
    if k < n {
        lemma_elems_err::<T>(data, pos, k + 1, n, e);
    }
}

/// Where the encodings of the elements of `q` stand at the cursor, reading
/// `q.len()` elements gives their models back.
pub proof fn lemma_elems_round_trip<T: RoundTrip>(q: Seq<T>, s: ParcelState)
    requires
        s.wf(),
        s.holds_at(s.pos as int, elems_wire(q)),
    ensures
        decode_elems::<T>(s.data, s.pos, q.len())
            == (Ok::<Seq<T::V>, StatusCode>(deep_seq(q)), s.pos + elems_wire(q).len()),
    decreases q.len(),
{
    if q.len() == 0 {
        assert(deep_seq(q) =~= Seq::<T::V>::empty());
    } else {
        let dl = q.drop_last();
        lemma_holds_split(s, s.pos as int, elems_wire(dl), q.last().wire());
        lemma_elems_round_trip(dl, s);
        let t = ParcelState { data: s.data, pos: (s.pos + elems_wire(dl).len()) as nat };
        T::lemma_decode_wire(&q.last(), t);
        assert(deep_seq(dl).push(q.last().deep_view()) =~= deep_seq(q));
    }
}

/// Writes the elements of `s` one by one after their count.
pub fn write_counted<T: Serialize>(parcel: &mut Parcel<'_>, s: &[T]) -> (r: Result<()>)
    requires
        old(parcel).wf(),
    ensures
        final(parcel).wf(),
        final(parcel).is_owned() == old(parcel).is_owned(),
        old(parcel)@.fits(counted_wire(s@).len()) ==> r == Ok::<(), StatusCode>(())
            && final(parcel)@ == old(parcel)@.put(counted_wire(s@)),
        !old(parcel)@.fits(counted_wire(s@).len()) ==> r == Err::<(), StatusCode>(
            StatusCode::BAD_VALUE,
        ),
        final(parcel)@.pos >= old(parcel)@.pos,
{
    let ghost s0 = parcel@;
    proof {
        lemma_elems_len(s@, 0);
        vstd::bytes::lemma_auto_spec_u32_to_from_le_bytes();
    }
    if s.len() > MAX_PARCEL_SIZE {
        return Err(StatusCode::BAD_VALUE);
    }
    let n = s.len();
    let ghost hdr = le_i32(n as i32);
    proof {
        assert(((n as i32) as u32) == n as u32);
        assert(spec_u32_to_le_bytes(n as u32) == hdr);
        assert(hdr.len() == 4);
    }
    write_word(parcel, n as u32)?;
    assert(s@.take(0) =~= Seq::<T>::empty());
    let mut i: usize = 0;
    while i < n
        invariant
            s0 == old(parcel)@,
            s0.wf(),
            parcel.wf(),
            parcel.is_owned() == old(parcel).is_owned(),
            parcel@.pos >= s0.pos,
            i <= n,
            n == s@.len(),
            hdr.len() == 4,
            parcel@ == s0.put(hdr + elems_wire(s@.take(i as int))),
            counted_wire(s@) == hdr + elems_wire(s@),
        decreases n - i,
    {
        let ghost before = parcel@;
        proof {
            lemma_elems_len(s@, i + 1);
            assert(s@.take(i + 1).drop_last() =~= s@.take(i as int));
            assert(s@.take(i + 1).last() == s@[i as int]);
        }
        match s[i].serialize(parcel) {
            Err(e) => {
                return Err(e);
            },
            Ok(_) => {},
        }
        proof {
            lemma_put_put(s0, hdr + elems_wire(s@.take(i as int)), s@[i as int].wire());
            assert(hdr + elems_wire(s@.take(i as int)) + s@[i as int].wire() =~= hdr + elems_wire(s@.take(i + 1)));
        }
        i = i + 1;
    }
    assert(s@.take(n as int) =~= s@);
    Ok(())
}

/// Reads a sequence written element by element, or nothing where its
/// length is negative.
pub fn read_counted<T: Deserialize>(parcel: &mut Parcel<'_>) -> (r: Result<Option<Vec<T>>>)
    requires
        old(parcel).wf(),
    ensures
        final(parcel).wf(),
        final(parcel).is_owned() == old(parcel).is_owned(),
        final(parcel)@.data == old(parcel)@.data,
        result_view(r) == decode_counted::<T>(old(parcel)@).0,
        r.is_ok() ==> final(parcel)@.pos == decode_counted::<T>(old(parcel)@).1,
{
    let w = read_word(parcel)?;
    let l = #[verifier::truncate] (w as i32);
    if l < 0 {
        return Ok(None);
    }
    let n = l as usize;
    let pos = parcel.get_data_position() as usize;
    let size = parcel.get_data_size() as usize;
    if n > size - pos {
        return Err(StatusCode::NOT_ENOUGH_DATA);
    }
    let ghost data = parcel@.data;
    let ghost body_start = parcel@.pos;
    let mut v: Vec<T> = Vec::new();
    assert(v.deep_view() =~= Seq::<T::V>::empty());
    let mut i: usize = 0;
    while i < n
        invariant
            parcel.wf(),
            parcel.is_owned() == old(parcel).is_owned(),
            parcel@.data == data,
            data == old(parcel)@.data,
            body_start == old(parcel)@.pos + 4,
            decode_word(old(parcel)@).0 == Ok::<u32, StatusCode>(w),
            l == #[verifier::truncate] (w as i32),
            l >= 0,
            n == l,
            n <= data.len() - body_start,
            i <= n,
            decode_elems::<T>(data, body_start, i as nat)
                == (Ok::<Seq<T::V>, StatusCode>(v.deep_view()), parcel@.pos),
        decreases n - i,
    {
        let ghost dv = v.deep_view();
        let ghost pre = parcel@;
        assert(pre == ParcelState { data, pos: decode_elems::<T>(data, body_start, i as nat).1 });
        let x = match T::deserialize(parcel) {
            Ok(x) => x,
            Err(e) => {
                proof {
                    assert(T::decode(pre).0 == Err::<T::V, StatusCode>(e));
                    assert(decode_elems::<T>(data, body_start, (i + 1) as nat).0
                        == Err::<Seq<T::V>, StatusCode>(e));
                    lemma_elems_err::<T>(data, body_start, (i + 1) as nat, n as nat, e);
                }
                return Err(e);
            },
        };
        v.push(x);
        proof {
            assert(v.deep_view() =~= dv.push(x.deep_view()));
        }
        i = i + 1;
    }
    Ok(Some(v))
}

/// A counted sequence takes at least its four length bytes.
pub proof fn lemma_counted_len<T: Serialize>(q: Seq<T>)
    ensures
        counted_wire(q).len() >= 4,
        counted_wire(q).len() >= 4 + q.len(),
{
    vstd::bytes::lemma_auto_spec_u32_to_from_le_bytes();
    let u = #[verifier::truncate] ((#[verifier::truncate] (q.len() as i32)) as u32);
    assert(spec_u32_to_le_bytes(u).len() == 4);
    lemma_elems_len(q, 0);
}

/// Where the counted encoding of `q` stands at the cursor, reading gives
/// the models of its elements back.
pub proof fn lemma_counted_round_trip<T: RoundTrip>(q: Seq<T>, s: ParcelState)
    requires
        s.wf(),
        s.holds_at(s.pos as int, counted_wire(q)),
    ensures
        decode_counted::<T>(s)
            == (Ok::<Option<Seq<T::V>>, StatusCode>(Some(deep_seq(q))), s.pos + counted_wire(q).len()),
{
    lemma_counted_len(q);
    let n = q.len();
    let x = #[verifier::truncate] (n as i32);
    let hdr = le_i32(x);
    lemma_holds_split(s, s.pos as int, hdr, elems_wire(q));
    lemma_word_at(#[verifier::truncate] (x as u32), s);
    assert(n <= i32::MAX);
    assert(((x as u32) as i32) == x) by (bit_vector);
    let t = ParcelState { data: s.data, pos: (s.pos + 4) as nat };
    lemma_elems_round_trip(q, t);
}

/// Where "absent" stands at the cursor, reading a counted sequence gives
/// nothing back.
pub proof fn lemma_counted_null<T: Deserialize>(s: ParcelState)
    requires
        s.wf(),
        s.holds_at(s.pos as int, null_wire()),
    ensures
        decode_counted::<T>(s) == (Ok::<Option<Seq<T::V>>, StatusCode>(None), s.pos + 4),
{
    let m = #[verifier::truncate] ((-1i32) as u32);
    lemma_word_at(m, s);
    assert((((-1i32) as u32) as i32) == -1i32) by (bit_vector);
}

/// A type whose sequences can be written into a parcel.
pub trait SerializeArray: Serialize + Sized {
    /// The bytes that stand for a sequence of values.
    spec fn array_wire(q: Seq<Self>) -> Seq<u8>;

    /// Writes the sequence at the cursor. Fails with `BAD_VALUE` when the
    /// parcel cannot hold it.
    fn serialize_array(slice: &[Self], parcel: &mut Parcel<'_>) -> (r: Result<()>)
        requires
            old(parcel).wf(),
        ensures
            final(parcel).wf(),
            final(parcel).is_owned() == old(parcel).is_owned(),
            old(parcel)@.fits(Self::array_wire(slice@).len()) ==> r == Ok::<(), StatusCode>(())
                && final(parcel)@ == old(parcel)@.put(Self::array_wire(slice@)),
            !old(parcel)@.fits(Self::array_wire(slice@).len()) ==> r == Err::<(), StatusCode>(
                StatusCode::BAD_VALUE,
            ),
            final(parcel)@.pos >= old(parcel)@.pos,
    ;

    /// A sequence takes at least four bytes.
    proof fn lemma_array_wire_len(q: Seq<Self>)
        ensures
            Self::array_wire(q).len() >= 4,
    ;
}

/// A type whose sequences can be read out of a parcel.
pub trait DeserializeArray: Deserialize {
    /// Reading a sequence, or its absence, at the cursor of `s`.
    spec fn decode_array(s: ParcelState) -> Decoded<Option<Seq<Self::V>>>;

    /// Reads a sequence, or nothing where it was written as absent.
    fn deserialize_array(parcel: &mut Parcel<'_>) -> (r: Result<Option<Vec<Self>>>)
        requires
            old(parcel).wf(),
        ensures
            final(parcel).wf(),
            final(parcel).is_owned() == old(parcel).is_owned(),
            final(parcel)@.data == old(parcel)@.data,
            result_view(r) == Self::decode_array(old(parcel)@).0,
            r.is_ok() ==> final(parcel)@.pos == Self::decode_array(old(parcel)@).1,
    ;
}

/// A type whose sequences read back as written.
pub trait ArrayRoundTrip: SerializeArray + DeserializeArray {
    /// Where the encoding of `q` stands at the cursor, reading gives the
    /// models of its elements back and moves past it.
    proof fn lemma_decode_array_wire(q: Seq<Self>, s: ParcelState)
        requires
            s.wf(),
            s.holds_at(s.pos as int, Self::array_wire(q)),
        ensures
            Self::decode_array(s)
                == (Ok::<Option<Seq<Self::V>>, StatusCode>(Some(deep_seq(q))), s.pos + Self::array_wire(q).len()),
    ;

    /// Where "absent" stands at the cursor, reading gives nothing back.
    proof fn lemma_decode_array_null(s: ParcelState)
        requires
            s.wf(),
            s.holds_at(s.pos as int, null_wire()),
        ensures
            Self::decode_array(s) == (Ok::<Option<Seq<Self::V>>, StatusCode>(None), s.pos + 4),
    ;
}

/// Bytes are packed: a run of bytes, padded to a multiple of four.
impl SerializeArray for u8 {
    open spec fn array_wire(q: Seq<u8>) -> Seq<u8> {
        blob_wire(q)
    }

    fn serialize_array(slice: &[u8], parcel: &mut Parcel<'_>) -> (r: Result<()>) {
        write_blob(parcel, slice)
    }

    proof fn lemma_array_wire_len(q: Seq<u8>) {
        vstd::bytes::lemma_auto_spec_u32_to_from_le_bytes();
        let u = #[verifier::truncate] ((#[verifier::truncate] (q.len() as i32)) as u32);
        assert(spec_u32_to_le_bytes(u).len() == 4);
    }
}

impl DeserializeArray for u8 {
    open spec fn decode_array(s: ParcelState) -> Decoded<Option<Seq<u8>>> {
        decode_blob(s)
    }

    fn deserialize_array(parcel: &mut Parcel<'_>) -> (r: Result<Option<Vec<u8>>>) {
        let r = read_blob(parcel);
        proof {
            if let Ok(Some(ref v)) = r {
                assert(v.deep_view() =~= v@);
            }
        }
        r
    }
}

impl ArrayRoundTrip for u8 {
    proof fn lemma_decode_array_wire(q: Seq<u8>, s: ParcelState) {
        lemma_blob_at(q, s);
        assert(deep_seq(q) =~= q);
    }

    proof fn lemma_decode_array_null(s: ParcelState) {
        lemma_null_blob_at(s);
    }
}

impl<T: SerializeArray> Serialize for [T] {
    open spec fn wire(&self) -> Seq<u8> {
        T::array_wire(self@)
    }

    proof fn lemma_wire_nonempty(&self) {
        T::lemma_array_wire_len(self@);
    }

    fn serialize(&self, parcel: &mut Parcel<'_>) -> (r: Result<()>) {
        T::serialize_array(self, parcel)
    }
}

impl<T: SerializeArray> Serialize for Vec<T> {
    open spec fn wire(&self) -> Seq<u8> {
        T::array_wire(self@)
    }

    proof fn lemma_wire_nonempty(&self) {
        T::lemma_array_wire_len(self@);
    }

    fn serialize(&self, parcel: &mut Parcel<'_>) -> (r: Result<()>) {
        T::serialize_array(self.as_slice(), parcel)
    }
}

/// An absent sequence is the length `-1`.
impl<T: SerializeArray> Serialize for Option<Vec<T>> {
    open spec fn wire(&self) -> Seq<u8> {
        match self {
            Some(v) => T::array_wire(v@),
            None => null_wire(),
        }
    }

    proof fn lemma_wire_nonempty(&self) {
        match self {
            Some(v) => T::lemma_array_wire_len(v@),
            None => {
                vstd::bytes::lemma_auto_spec_u32_to_from_le_bytes();
                let u = #[verifier::truncate] ((-1i32) as u32);
                assert(spec_u32_to_le_bytes(u).len() == 4);
            },
        }
    }

    fn serialize(&self, parcel: &mut Parcel<'_>) -> (r: Result<()>) {
        match self {
            Some(v) => T::serialize_array(v.as_slice(), parcel),
            None => {
                proof {
                    vstd::bytes::lemma_auto_spec_u32_to_from_le_bytes();
                }
                write_word(parcel, (-1i32) as u32)
            },
        }
    }
}

impl<T: DeserializeArray> Deserialize for Vec<T> {
    open spec fn decode(s: ParcelState) -> Decoded<Seq<T::V>> {
        match T::decode_array(s) {
            (Ok(Some(v)), p) => (Ok(v), p),
            (Ok(None), p) => (Err(StatusCode::UNEXPECTED_NULL), p),
            (Err(e), p) => (Err(e), p),
        }
    }

    fn deserialize(parcel: &mut Parcel<'_>) -> (r: Result<Vec<T>>) {
        match T::deserialize_array(parcel) {
            Ok(Some(v)) => Ok(v),
            Ok(None) => Err(StatusCode::UNEXPECTED_NULL),
            Err(e) => Err(e),
        }
    }
}

impl<T: DeserializeArray> Deserialize for Option<Vec<T>> {
    open spec fn decode(s: ParcelState) -> Decoded<Option<Seq<T::V>>> {
        T::decode_array(s)
    }

    fn deserialize(parcel: &mut Parcel<'_>) -> (r: Result<Option<Vec<T>>>) {
        T::deserialize_array(parcel)
    }
}

impl<T: ArrayRoundTrip> RoundTrip for Vec<T> {
    proof fn lemma_decode_wire(v: &Vec<T>, s: ParcelState) {
        T::lemma_decode_array_wire(v@, s);
    }
}

impl<T: ArrayRoundTrip> RoundTrip for Option<Vec<T>> {
    proof fn lemma_decode_wire(v: &Option<Vec<T>>, s: ParcelState) {
        match v {
            Some(x) => {
                T::lemma_decode_array_wire(x@, s);
                assert(x.deep_view() =~= deep_seq(x@));
            },
            None => {
                T::lemma_decode_array_null(s);
                vstd::bytes::lemma_auto_spec_u32_to_from_le_bytes();
                let u = #[verifier::truncate] ((-1i32) as u32);
                assert(spec_u32_to_le_bytes(u).len() == 4);
            },
        }
    }
}

impl SerializeArray for i32 {
    open spec fn array_wire(q: Seq<i32>) -> Seq<u8> {
        counted_wire(q)
    }

    fn serialize_array(slice: &[i32], parcel: &mut Parcel<'_>) -> (r: Result<()>) {
        write_counted(parcel, slice)
    }

    proof fn lemma_array_wire_len(q: Seq<i32>) {
        lemma_counted_len(q);
    }
}

impl DeserializeArray for i32 {
    open spec fn decode_array(s: ParcelState) -> Decoded<Option<Seq<i32>>> {
        decode_counted::<i32>(s)
    }

    fn deserialize_array(parcel: &mut Parcel<'_>) -> (r: Result<Option<Vec<i32>>>) {
        read_counted(parcel)
    }
}

impl ArrayRoundTrip for i32 {
    proof fn lemma_decode_array_wire(q: Seq<i32>, s: ParcelState) {
        lemma_counted_round_trip(q, s);
    }

    proof fn lemma_decode_array_null(s: ParcelState) {
        lemma_counted_null::<i32>(s);
    }
}

impl SerializeArray for u32 {
    open spec fn array_wire(q: Seq<u32>) -> Seq<u8> {
        counted_wire(q)
    }

    fn serialize_array(slice: &[u32], parcel: &mut Parcel<'_>) -> (r: Result<()>) {
        write_counted(parcel, slice)
    }

    proof fn lemma_array_wire_len(q: Seq<u32>) {
        lemma_counted_len(q);
    }
}

impl DeserializeArray for u32 {
    open spec fn decode_array(s: ParcelState) -> Decoded<Option<Seq<u32>>> {
        decode_counted::<u32>(s)
    }

    fn deserialize_array(parcel: &mut Parcel<'_>) -> (r: Result<Option<Vec<u32>>>) {
        read_counted(parcel)
    }
}

impl ArrayRoundTrip for u32 {
    proof fn lemma_decode_array_wire(q: Seq<u32>, s: ParcelState) {
        lemma_counted_round_trip(q, s);
    }

    proof fn lemma_decode_array_null(s: ParcelState) {
        lemma_counted_null::<u32>(s);
    }
}

impl SerializeArray for i64 {
    open spec fn array_wire(q: Seq<i64>) -> Seq<u8> {
        counted_wire(q)
    }

    fn serialize_array(slice: &[i64], parcel: &mut Parcel<'_>) -> (r: Result<()>) {
        write_counted(parcel, slice)
    }

    proof fn lemma_array_wire_len(q: Seq<i64>) {
        lemma_counted_len(q);
    }
}

impl DeserializeArray for i64 {
    open spec fn decode_array(s: ParcelState) -> Decoded<Option<Seq<i64>>> {
        decode_counted::<i64>(s)
    }

    fn deserialize_array(parcel: &mut Parcel<'_>) -> (r: Result<Option<Vec<i64>>>) {
        read_counted(parcel)
    }
}

impl ArrayRoundTrip for i64 {
    proof fn lemma_decode_array_wire(q: Seq<i64>, s: ParcelState) {
        lemma_counted_round_trip(q, s);
    }

    proof fn lemma_decode_array_null(s: ParcelState) {
        lemma_counted_null::<i64>(s);
    }
}

impl SerializeArray for u64 {
    open spec fn array_wire(q: Seq<u64>) -> Seq<u8> {
        counted_wire(q)
    }

    fn serialize_array(slice: &[u64], parcel: &mut Parcel<'_>) -> (r: Result<()>) {
        write_counted(parcel, slice)
    }

    proof fn lemma_array_wire_len(q: Seq<u64>) {
        lemma_counted_len(q);
    }
}

impl DeserializeArray for u64 {
    open spec fn decode_array(s: ParcelState) -> Decoded<Option<Seq<u64>>> {
        decode_counted::<u64>(s)
    }

    fn deserialize_array(parcel: &mut Parcel<'_>) -> (r: Result<Option<Vec<u64>>>) {
        read_counted(parcel)
    }
}

impl ArrayRoundTrip for u64 {
    proof fn lemma_decode_array_wire(q: Seq<u64>, s: ParcelState) {
        lemma_counted_round_trip(q, s);
    }

    proof fn lemma_decode_array_null(s: ParcelState) {
        lemma_counted_null::<u64>(s);
    }
}

impl SerializeArray for bool {
    open spec fn array_wire(q: Seq<bool>) -> Seq<u8> {
        counted_wire(q)
    }

    fn serialize_array(slice: &[bool], parcel: &mut Parcel<'_>) -> (r: Result<()>) {
        write_counted(parcel, slice)
    }

    proof fn lemma_array_wire_len(q: Seq<bool>) {
        lemma_counted_len(q);
    }
}

impl DeserializeArray for bool {
    open spec fn decode_array(s: ParcelState) -> Decoded<Option<Seq<bool>>> {
        decode_counted::<bool>(s)
    }

    fn deserialize_array(parcel: &mut Parcel<'_>) -> (r: Result<Option<Vec<bool>>>) {
        read_counted(parcel)
    }
}

impl ArrayRoundTrip for bool {
    proof fn lemma_decode_array_wire(q: Seq<bool>, s: ParcelState) {
        lemma_counted_round_trip(q, s);
    }

    proof fn lemma_decode_array_null(s: ParcelState) {
        lemma_counted_null::<bool>(s);
    }
}

impl SerializeArray for u16 {
    open spec fn array_wire(q: Seq<u16>) -> Seq<u8> {
        counted_wire(q)
    }

    fn serialize_array(slice: &[u16], parcel: &mut Parcel<'_>) -> (r: Result<()>) {
        write_counted(parcel, slice)
    }

    proof fn lemma_array_wire_len(q: Seq<u16>) {
        lemma_counted_len(q);
    }
}

impl DeserializeArray for u16 {
    open spec fn decode_array(s: ParcelState) -> Decoded<Option<Seq<u16>>> {
        decode_counted::<u16>(s)
    }

    fn deserialize_array(parcel: &mut Parcel<'_>) -> (r: Result<Option<Vec<u16>>>) {
        read_counted(parcel)
    }
}

impl ArrayRoundTrip for u16 {
    proof fn lemma_decode_array_wire(q: Seq<u16>, s: ParcelState) {
        lemma_counted_round_trip(q, s);
    }

    proof fn lemma_decode_array_null(s: ParcelState) {
        lemma_counted_null::<u16>(s);
    }
}

impl SerializeArray for i8 {
    open spec fn array_wire(q: Seq<i8>) -> Seq<u8> {
        counted_wire(q)
    }

    fn serialize_array(slice: &[i8], parcel: &mut Parcel<'_>) -> (r: Result<()>) {
        write_counted(parcel, slice)
    }

    proof fn lemma_array_wire_len(q: Seq<i8>) {
        lemma_counted_len(q);
    }
}

impl DeserializeArray for i8 {
    open spec fn decode_array(s: ParcelState) -> Decoded<Option<Seq<i8>>> {
        decode_counted::<i8>(s)
    }

    fn deserialize_array(parcel: &mut Parcel<'_>) -> (r: Result<Option<Vec<i8>>>) {
        read_counted(parcel)
    }
}

impl ArrayRoundTrip for i8 {
    proof fn lemma_decode_array_wire(q: Seq<i8>, s: ParcelState) {
        lemma_counted_round_trip(q, s);
    }

    proof fn lemma_decode_array_null(s: ParcelState) {
        lemma_counted_null::<i8>(s);
    }
}

} // verus!
