use vstd::bytes::{
    spec_u32_from_le_bytes, spec_u32_to_le_bytes, spec_u64_from_le_bytes, spec_u64_to_le_bytes,
    u32_from_le_bytes, u32_to_le_bytes, u64_from_le_bytes, u64_to_le_bytes,
};
use vstd::prelude::*;

use crate::error::{Result, StatusCode};
use crate::model::ParcelState;
use crate::parcel::Parcel;

verus! {

/// A value that can be written into a parcel.
pub trait Serialize {
    /// The bytes that stand for this value in a parcel.
    spec fn wire(&self) -> Seq<u8>;

    /// Writes the value at the cursor and moves the cursor past it. Fails
    /// with `BAD_VALUE` when the parcel cannot hold it.
    fn serialize(&self, parcel: &mut Parcel<'_>) -> (r: Result<()>)
        requires
            old(parcel).wf(),
        ensures
            final(parcel).wf(),
            final(parcel).is_owned() == old(parcel).is_owned(),
            old(parcel)@.fits(self.wire().len()) ==> r == Ok::<(), StatusCode>(())
                && final(parcel)@ == old(parcel)@.put(self.wire()),
            !old(parcel)@.fits(self.wire().len()) ==> r == Err::<(), StatusCode>(
                StatusCode::BAD_VALUE,
            ),
            final(parcel)@.pos >= old(parcel)@.pos,
    ;

    /// Every value takes at least one byte.
    proof fn lemma_wire_nonempty(&self)
        ensures
            self.wire().len() >= 1,
    ;
}

/// What a read gives: the value's model or an error, and the cursor after
/// it.
pub type Decoded<V> = (core::result::Result<V, StatusCode>, nat);

/// The model of a read's result.
pub open spec fn result_view<T: DeepView>(r: Result<T>) -> core::result::Result<
    T::V,
    StatusCode,
> {
    match r {
        Ok(v) => Ok(v.deep_view()),
        Err(e) => Err(e),
    }
}

/// A value that can be read out of a parcel.
pub trait Deserialize: Sized + DeepView {
    /// Reading at the cursor of `s`.
    spec fn decode(s: ParcelState) -> Decoded<Self::V>;

    /// Reads a value at the cursor. The data is left as it is; on success the
    /// cursor moves past the value.
    fn deserialize(parcel: &mut Parcel<'_>) -> (r: Result<Self>)
        requires
            old(parcel).wf(),
        ensures
            final(parcel).wf(),
            final(parcel).is_owned() == old(parcel).is_owned(),
            final(parcel)@.data == old(parcel)@.data,
            result_view(r) == Self::decode(old(parcel)@).0,
            r.is_ok() ==> final(parcel)@.pos == Self::decode(old(parcel)@).1,
    ;
}

/// A type whose encoding reads back as the value written.
pub trait RoundTrip: Serialize + Deserialize {
    /// Where the encoding of `v` stands at the cursor of `s`, reading gives
    /// `v` back and moves past the encoding, which is never empty.
    proof fn lemma_decode_wire(v: &Self, s: ParcelState)
        requires
            s.wf(),
            s.holds_at(s.pos as int, v.wire()),
        ensures
            Self::decode(s) == (Ok::<Self::V, StatusCode>(v.deep_view()), s.pos + v.wire().len()),
    ;
}

/// A 4-byte little-endian word at the cursor.
pub open spec fn decode_word(s: ParcelState) -> Decoded<u32> {
    if s.remaining() >= 4 {
        (
            Ok(spec_u32_from_le_bytes(s.data.subrange(s.pos as int, s.pos + 4int))),
            (s.pos + 4) as nat,
        )
    } else {
        (Err(StatusCode::NOT_ENOUGH_DATA), s.pos)
    }
}

/// An 8-byte little-endian word at the cursor.
pub open spec fn decode_long(s: ParcelState) -> Decoded<u64> {
    if s.remaining() >= 8 {
        (
            Ok(spec_u64_from_le_bytes(s.data.subrange(s.pos as int, s.pos + 8int))),
            (s.pos + 8) as nat,
        )
    } else {
        (Err(StatusCode::NOT_ENOUGH_DATA), s.pos)
    }
}

/// `d` with its value mapped through `f`.
pub open spec fn map_decoded<A, B>(d: Decoded<A>, f: spec_fn(A) -> B) -> Decoded<B> {
    match d.0 {
        Ok(a) => (Ok(f(a)), d.1),
        Err(e) => (Err(e), d.1),
    }
}

/// Writes `x` as four little-endian bytes at the cursor; fails with
/// `BAD_VALUE`, changing nothing, when the parcel has no room for them.
pub(crate) fn write_word(parcel: &mut Parcel<'_>, x: u32) -> (r: Result<()>)
    requires
        old(parcel).wf(),
    ensures
        final(parcel).wf(),
        final(parcel).is_owned() == old(parcel).is_owned(),
        old(parcel)@.fits(4) ==> r == Ok::<(), StatusCode>(())
            && final(parcel)@ == old(parcel)@.put(spec_u32_to_le_bytes(x)),
        !old(parcel)@.fits(4) ==> r == Err::<(), StatusCode>(StatusCode::BAD_VALUE)
            && final(parcel)@ == old(parcel)@,
{
    let b = u32_to_le_bytes(x);
    parcel.write_bytes(b.as_slice())
}

/// Writes `x` as eight little-endian bytes at the cursor.
pub(crate) fn write_long(parcel: &mut Parcel<'_>, x: u64) -> (r: Result<()>)
    requires
        old(parcel).wf(),
    ensures
        final(parcel).wf(),
        final(parcel).is_owned() == old(parcel).is_owned(),
        old(parcel)@.fits(8) ==> r == Ok::<(), StatusCode>(())
            && final(parcel)@ == old(parcel)@.put(spec_u64_to_le_bytes(x)),
        !old(parcel)@.fits(8) ==> r == Err::<(), StatusCode>(StatusCode::BAD_VALUE)
            && final(parcel)@ == old(parcel)@,
{
    let b = u64_to_le_bytes(x);
    parcel.write_bytes(b.as_slice())
}

/// Reads four little-endian bytes at the cursor.
pub(crate) fn read_word(parcel: &mut Parcel<'_>) -> (r: Result<u32>)
    requires
        old(parcel).wf(),
    ensures
        final(parcel).wf(),
        final(parcel).is_owned() == old(parcel).is_owned(),
        final(parcel)@.data == old(parcel)@.data,
        result_view(r) == decode_word(old(parcel)@).0,
        final(parcel)@.pos == decode_word(old(parcel)@).1,
{
    let b = parcel.read_bytes(4)?;
    Ok(u32_from_le_bytes(b.as_slice()))
}

/// Reads eight little-endian bytes at the cursor.
pub(crate) fn read_long(parcel: &mut Parcel<'_>) -> (r: Result<u64>)
    requires
        old(parcel).wf(),
    ensures
        final(parcel).wf(),
        final(parcel).is_owned() == old(parcel).is_owned(),
        final(parcel)@.data == old(parcel)@.data,
        result_view(r) == decode_long(old(parcel)@).0,
        final(parcel)@.pos == decode_long(old(parcel)@).1,
{
    let b = parcel.read_bytes(8)?;
    Ok(u64_from_le_bytes(b.as_slice()))
}

/// Where the four bytes of `x` stand at the cursor, the word read there is `x`.
pub(crate) proof fn lemma_word_at(x: u32, s: ParcelState)
    requires
        s.wf(),
        s.holds_at(s.pos as int, spec_u32_to_le_bytes(x)),
    ensures
        spec_u32_to_le_bytes(x).len() == 4,
        decode_word(s) == (Ok::<u32, StatusCode>(x), (s.pos + 4) as nat),
{
    vstd::bytes::lemma_auto_spec_u32_to_from_le_bytes();
    assert(spec_u32_to_le_bytes(x).len() == 4);
}

/// Where the eight bytes of `x` stand at the cursor, the word read there is `x`.
pub(crate) proof fn lemma_long_at(x: u64, s: ParcelState)
    requires
        s.wf(),
        s.holds_at(s.pos as int, spec_u64_to_le_bytes(x)),
    ensures
        spec_u64_to_le_bytes(x).len() == 8,
        decode_long(s) == (Ok::<u64, StatusCode>(x), (s.pos + 8) as nat),
{
    vstd::bytes::lemma_auto_spec_u64_to_from_le_bytes();
    assert(spec_u64_to_le_bytes(x).len() == 8);
}

impl Serialize for i32 {
    open spec fn wire(&self) -> Seq<u8> {
        spec_u32_to_le_bytes(#[verifier::truncate] (*self as u32))
    }

    proof fn lemma_wire_nonempty(&self) {
        vstd::bytes::lemma_auto_spec_u32_to_from_le_bytes();
        assert(self.wire().len() == 4);
    }

    fn serialize(&self, parcel: &mut Parcel<'_>) -> (r: Result<()>) {
        proof {
            vstd::bytes::lemma_auto_spec_u32_to_from_le_bytes();
        }
        write_word(parcel, *self as u32)
    }
}

impl Deserialize for i32 {
    open spec fn decode(s: ParcelState) -> Decoded<i32> {
        map_decoded(decode_word(s), |w: u32| #[verifier::truncate] (w as i32))
    }

    fn deserialize(parcel: &mut Parcel<'_>) -> (r: Result<i32>) {
        let w = read_word(parcel)?;
        Ok(w as i32)
    }
}

impl RoundTrip for i32 {
    proof fn lemma_decode_wire(v: &i32, s: ParcelState) {
        let x = *v;
        lemma_word_at(#[verifier::truncate] (x as u32), s);
        assert(((x as u32) as i32) == x) by (bit_vector);
    }
}

impl Serialize for u32 {
    open spec fn wire(&self) -> Seq<u8> {
        spec_u32_to_le_bytes(*self)
    }

    proof fn lemma_wire_nonempty(&self) {
        vstd::bytes::lemma_auto_spec_u32_to_from_le_bytes();
        assert(self.wire().len() == 4);
    }

    fn serialize(&self, parcel: &mut Parcel<'_>) -> (r: Result<()>) {
        proof {
            vstd::bytes::lemma_auto_spec_u32_to_from_le_bytes();
        }
        write_word(parcel, *self)
    }
}

impl Deserialize for u32 {
    open spec fn decode(s: ParcelState) -> Decoded<u32> {
        decode_word(s)
    }

    fn deserialize(parcel: &mut Parcel<'_>) -> (r: Result<u32>) {
        read_word(parcel)
    }
}

impl RoundTrip for u32 {
    proof fn lemma_decode_wire(v: &u32, s: ParcelState) {
        lemma_word_at(*v, s);
    }
}

impl Serialize for u64 {
    open spec fn wire(&self) -> Seq<u8> {
        spec_u64_to_le_bytes(*self)
    }

    proof fn lemma_wire_nonempty(&self) {
        vstd::bytes::lemma_auto_spec_u64_to_from_le_bytes();
        assert(self.wire().len() == 8);
    }

    fn serialize(&self, parcel: &mut Parcel<'_>) -> (r: Result<()>) {
        proof {
            vstd::bytes::lemma_auto_spec_u64_to_from_le_bytes();
        }
        write_long(parcel, *self)
    }
}

impl Deserialize for u64 {
    open spec fn decode(s: ParcelState) -> Decoded<u64> {
        decode_long(s)
    }

    fn deserialize(parcel: &mut Parcel<'_>) -> (r: Result<u64>) {
        read_long(parcel)
    }
}

impl RoundTrip for u64 {
    proof fn lemma_decode_wire(v: &u64, s: ParcelState) {
        lemma_long_at(*v, s);
    }
}

impl Serialize for i64 {
    open spec fn wire(&self) -> Seq<u8> {
        spec_u64_to_le_bytes(#[verifier::truncate] (*self as u64))
    }

    proof fn lemma_wire_nonempty(&self) {
        vstd::bytes::lemma_auto_spec_u64_to_from_le_bytes();
        assert(self.wire().len() == 8);
    }

    fn serialize(&self, parcel: &mut Parcel<'_>) -> (r: Result<()>) {
        proof {
            vstd::bytes::lemma_auto_spec_u64_to_from_le_bytes();
        }
        write_long(parcel, *self as u64)
    }
}

impl Deserialize for i64 {
    open spec fn decode(s: ParcelState) -> Decoded<i64> {
        map_decoded(decode_long(s), |w: u64| #[verifier::truncate] (w as i64))
    }

    fn deserialize(parcel: &mut Parcel<'_>) -> (r: Result<i64>) {
        let w = read_long(parcel)?;
        Ok(w as i64)
    }
}

impl RoundTrip for i64 {
    proof fn lemma_decode_wire(v: &i64, s: ParcelState) {
        let x = *v;
        lemma_long_at(#[verifier::truncate] (x as u64), s);
        assert(((x as u64) as i64) == x) by (bit_vector);
    }
}

/// A `bool` is a word: 1 for true, 0 for false; any nonzero word reads as
/// true.
impl Serialize for bool {
    open spec fn wire(&self) -> Seq<u8> {
        spec_u32_to_le_bytes(if *self { 1u32 } else { 0u32 })
    }

    proof fn lemma_wire_nonempty(&self) {
        vstd::bytes::lemma_auto_spec_u32_to_from_le_bytes();
        assert(self.wire().len() == 4);
    }

    fn serialize(&self, parcel: &mut Parcel<'_>) -> (r: Result<()>) {
        proof {
            vstd::bytes::lemma_auto_spec_u32_to_from_le_bytes();
        }
        let w: u32 = if *self { 1 } else { 0 };
        write_word(parcel, w)
    }
}

impl Deserialize for bool {
    open spec fn decode(s: ParcelState) -> Decoded<bool> {
        map_decoded(decode_word(s), |w: u32| w != 0)
    }

    fn deserialize(parcel: &mut Parcel<'_>) -> (r: Result<bool>) {
        let w = read_word(parcel)?;
        Ok(w != 0)
    }
}

impl RoundTrip for bool {
    proof fn lemma_decode_wire(v: &bool, s: ParcelState) {
        lemma_word_at(if *v { 1u32 } else { 0u32 }, s);
    }
}

/// An `i8` is a sign-extended word; reading keeps the low byte.
impl Serialize for i8 {
    open spec fn wire(&self) -> Seq<u8> {
        spec_u32_to_le_bytes(#[verifier::truncate] ((*self as i32) as u32))
    }

    proof fn lemma_wire_nonempty(&self) {
        vstd::bytes::lemma_auto_spec_u32_to_from_le_bytes();
        assert(self.wire().len() == 4);
    }

    fn serialize(&self, parcel: &mut Parcel<'_>) -> (r: Result<()>) {
        proof {
            vstd::bytes::lemma_auto_spec_u32_to_from_le_bytes();
        }
        write_word(parcel, (*self as i32) as u32)
    }
}

impl Deserialize for i8 {
    open spec fn decode(s: ParcelState) -> Decoded<i8> {
        map_decoded(decode_word(s), |w: u32| #[verifier::truncate] (w as i8))
    }

    fn deserialize(parcel: &mut Parcel<'_>) -> (r: Result<i8>) {
        let w = read_word(parcel)?;
        Ok(w as i8)
    }
}

impl RoundTrip for i8 {
    proof fn lemma_decode_wire(v: &i8, s: ParcelState) {
        let x = *v;
        lemma_word_at(#[verifier::truncate] ((x as i32) as u32), s);
        assert((((x as i32) as u32) as i8) == x) by (bit_vector);
    }
}

/// A `u8` is written as the `i8` of the same bits; reading keeps the low
/// byte.
impl Serialize for u8 {
    open spec fn wire(&self) -> Seq<u8> {
        spec_u32_to_le_bytes(#[verifier::truncate] (((*self as i8) as i32) as u32))
    }

    proof fn lemma_wire_nonempty(&self) {
        vstd::bytes::lemma_auto_spec_u32_to_from_le_bytes();
        assert(self.wire().len() == 4);
    }

    fn serialize(&self, parcel: &mut Parcel<'_>) -> (r: Result<()>) {
        proof {
            vstd::bytes::lemma_auto_spec_u32_to_from_le_bytes();
        }
        write_word(parcel, ((*self as i8) as i32) as u32)
    }
}

impl Deserialize for u8 {
    open spec fn decode(s: ParcelState) -> Decoded<u8> {
        map_decoded(decode_word(s), |w: u32| #[verifier::truncate] (w as u8))
    }

    fn deserialize(parcel: &mut Parcel<'_>) -> (r: Result<u8>) {
        let w = read_word(parcel)?;
        Ok(w as u8)
    }
}

impl RoundTrip for u8 {
    proof fn lemma_decode_wire(v: &u8, s: ParcelState) {
        let x = *v;
        lemma_word_at(#[verifier::truncate] (((x as i8) as i32) as u32), s);
        assert(((((x as i8) as i32) as u32) as u8) == x) by (bit_vector);
    }
}

/// A `u16` is a zero-extended word; reading keeps the low two bytes.
impl Serialize for u16 {
    open spec fn wire(&self) -> Seq<u8> {
        spec_u32_to_le_bytes(*self as u32)
    }

    proof fn lemma_wire_nonempty(&self) {
        vstd::bytes::lemma_auto_spec_u32_to_from_le_bytes();
        assert(self.wire().len() == 4);
    }

    fn serialize(&self, parcel: &mut Parcel<'_>) -> (r: Result<()>) {
        proof {
            vstd::bytes::lemma_auto_spec_u32_to_from_le_bytes();
        }
        write_word(parcel, *self as u32)
    }
}

impl Deserialize for u16 {
    open spec fn decode(s: ParcelState) -> Decoded<u16> {
        map_decoded(decode_word(s), |w: u32| #[verifier::truncate] (w as u16))
    }

    fn deserialize(parcel: &mut Parcel<'_>) -> (r: Result<u16>) {
        let w = read_word(parcel)?;
        Ok(w as u16)
    }
}

impl RoundTrip for u16 {
    proof fn lemma_decode_wire(v: &u16, s: ParcelState) {
        let x = *v;
        lemma_word_at(x as u32, s);
        assert(((x as u32) as u16) == x) by (bit_vector);
    }
}

} // verus!
