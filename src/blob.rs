use vstd::bytes::spec_u32_to_le_bytes;
use vstd::prelude::*;

use crate::error::{Result, StatusCode};
use crate::model::{lemma_holds_split, lemma_put_put, le_i32, ParcelState, MAX_PARCEL_SIZE};
use crate::parcel::Parcel;
use crate::parcelable::{decode_word, read_word, result_view, write_word, Decoded};

verus! {

/// Number of zero bytes that bring a run of `n` bytes to a multiple of four.
pub open spec fn pad_len(n: nat) -> nat {
    ((4 - (n % 4) as int) % 4) as nat
}

/// The zero bytes that follow a run of `n` bytes.
pub open spec fn padding(n: nat) -> Seq<u8> {
    Seq::new(pad_len(n), |i: int| 0u8)
}

/// A run of bytes: its length as an `i32`, the bytes, then padding.
pub open spec fn blob_wire(b: Seq<u8>) -> Seq<u8> {
    le_i32(#[verifier::truncate] (b.len() as i32)) + b + padding(b.len())
}

/// The length `-1` that stands for an absent run, string or sequence.
pub open spec fn null_wire() -> Seq<u8> {
    le_i32(-1i32)
}

/// Reading a run of bytes: absent where the length is negative.
pub open spec fn decode_blob(s: ParcelState) -> Decoded<Option<Seq<u8>>> {
    match decode_word(s).0 {
        Err(e) => (Err(e), s.pos),
        Ok(w) => {
            let l = #[verifier::truncate] (w as i32);
            let p: int = s.pos + 4int;
            if l < 0 {
                (Ok(None), p as nat)
            } else if l + pad_len(l as nat) > s.data.len() - p {
                (Err(StatusCode::NOT_ENOUGH_DATA), p as nat)
            } else {
                (Ok(Some(s.data.subrange(p, p + l))), (p + l + pad_len(l as nat)) as nat)
            }
        },
    }
}

/// Writes `b` as a run of bytes. Fails with `BAD_VALUE` when the parcel
/// cannot hold it.
pub fn write_blob(parcel: &mut Parcel<'_>, b: &[u8]) -> (r: Result<()>)
    requires
        old(parcel).wf(),
    ensures
        final(parcel).wf(),
        final(parcel).is_owned() == old(parcel).is_owned(),
        old(parcel)@.fits(blob_wire(b@).len()) ==> r == Ok::<(), StatusCode>(())
            && final(parcel)@ == old(parcel)@.put(blob_wire(b@)),
        !old(parcel)@.fits(blob_wire(b@).len()) ==> r == Err::<(), StatusCode>(
            StatusCode::BAD_VALUE,
        ),
        final(parcel)@.pos >= old(parcel)@.pos,
{
    let ghost s0 = parcel@;
    if b.len() > MAX_PARCEL_SIZE {
        return Err(StatusCode::BAD_VALUE);
    }
    let n = b.len();
    proof {
        vstd::bytes::lemma_auto_spec_u32_to_from_le_bytes();
        assert(((n as i32) as u32) == n as u32);
        assert(spec_u32_to_le_bytes(n as u32) == le_i32(n as i32));
    }
    write_word(parcel, n as u32)?;
    let ghost s1 = parcel@;
    parcel.write_bytes(b)?;
    let ghost s2 = parcel@;
    let pad_n: usize = (4 - n % 4) % 4;
    let mut pad: Vec<u8> = Vec::new();
    let mut i: usize = 0;
    while i < pad_n
        invariant
            i <= pad_n,
            pad@ == Seq::new(i as nat, |k: int| 0u8),
        decreases pad_n - i,
    {
        pad.push(0);
        i = i + 1;
        assert(pad@ =~= Seq::new(i as nat, |k: int| 0u8));
    }
    assert(pad@ =~= padding(n as nat));
    let r = parcel.write_bytes(pad.as_slice());
    proof {
        lemma_put_put(s0, le_i32(n as i32), b@);
        lemma_put_put(s0, le_i32(n as i32) + b@, padding(n as nat));
    }
    r
}

/// Reads a run of bytes, or nothing where its length is negative.
pub fn read_blob(parcel: &mut Parcel<'_>) -> (r: Result<Option<Vec<u8>>>)
    requires
        old(parcel).wf(),
    ensures
        final(parcel).wf(),
        final(parcel).is_owned() == old(parcel).is_owned(),
        final(parcel)@.data == old(parcel)@.data,
        match r {
            Ok(Some(v)) => decode_blob(old(parcel)@).0
                == Ok::<Option<Seq<u8>>, StatusCode>(Some(v@)),
            Ok(None) => decode_blob(old(parcel)@).0 == Ok::<Option<Seq<u8>>, StatusCode>(None),
            Err(e) => decode_blob(old(parcel)@).0 == Err::<Option<Seq<u8>>, StatusCode>(e),
        },
        r.is_ok() ==> final(parcel)@.pos == decode_blob(old(parcel)@).1,
{
    let w = read_word(parcel)?;
    let l = w as i32;
    if l < 0 {
        return Ok(None);
    }
    let n = l as usize;
    let pad_n: usize = (4 - n % 4) % 4;
    let pos = parcel.get_data_position() as usize;
    let size = parcel.get_data_size() as usize;
    if n + pad_n > size - pos {
        return Err(StatusCode::NOT_ENOUGH_DATA);
    }
    let bytes = parcel.read_bytes(n)?;
    let _ = parcel.read_bytes(pad_n);
    Ok(Some(bytes))
}

/// Where the run `b` stands at the cursor, reading gives it back and moves
/// past it.
pub proof fn lemma_blob_at(b: Seq<u8>, s: ParcelState)
    requires
        s.wf(),
        s.holds_at(s.pos as int, blob_wire(b)),
    ensures
        decode_blob(s)
            == (Ok::<Option<Seq<u8>>, StatusCode>(Some(b)), (s.pos + blob_wire(b).len()) as nat),
        blob_wire(b).len() == 4 + b.len() + pad_len(b.len()),
{
    vstd::bytes::lemma_auto_spec_u32_to_from_le_bytes();
    let n = b.len();
    let hdr = le_i32(n as i32);
    assert(hdr.len() == 4);
    lemma_holds_split(s, s.pos as int, hdr + b, padding(n));
    lemma_holds_split(s, s.pos as int, hdr, b);
    assert(n <= i32::MAX);
    let u = (n as i32) as u32;
    assert(spec_u32_to_le_bytes(u).len() == 4);
    let x = n as i32;
    assert(((x as u32) as i32) == x) by (bit_vector);
    assert(((u as i32) as nat) == n);
    assert(s.data.subrange(s.pos + 4int, s.pos + 4 + n as int) == b);
}

/// Where "absent" stands at the cursor, reading gives nothing back.
pub proof fn lemma_null_blob_at(s: ParcelState)
    requires
        s.wf(),
        s.holds_at(s.pos as int, null_wire()),
    ensures
        decode_blob(s) == (Ok::<Option<Seq<u8>>, StatusCode>(None), s.pos + 4),
        null_wire().len() == 4,
{
    vstd::bytes::lemma_auto_spec_u32_to_from_le_bytes();
    let u = #[verifier::truncate] ((-1i32) as u32);
    assert(spec_u32_to_le_bytes(u).len() == 4);
    assert((((-1i32) as u32) as i32) == -1i32) by (bit_vector);
}

} // verus!
