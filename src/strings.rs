use vstd::bytes::spec_u32_to_le_bytes;
use vstd::prelude::*;
use vstd::utf8::{decode_utf8, encode_utf8, valid_utf8};

use crate::arrays::{
    counted_wire, decode_counted, lemma_counted_len, lemma_counted_null, lemma_counted_round_trip,
    read_counted, write_counted, ArrayRoundTrip, DeserializeArray, SerializeArray,
};
use crate::blob::{
    blob_wire, decode_blob, lemma_blob_at, lemma_null_blob_at, null_wire, read_blob, write_blob,
};
use crate::error::{Result, StatusCode};
use crate::model::ParcelState;
use crate::parcel::Parcel;
use crate::parcelable::{
    decode_word,
    result_view,
    write_word,
    Decoded,
    Deserialize,
    RoundTrip,
    Serialize,
};

verus! {

/// Relies on `String::from_utf8`: it accepts exactly the byte vectors that
/// are valid UTF-8, and the string it returns holds those bytes.
#[verifier::external_body]
fn string_from_utf8(b: Vec<u8>) -> (r: Option<String>)
    ensures
        r is Some <==> valid_utf8(b@),
        r matches Some(s) ==> encode_utf8(s@) == b@,
{
    String::from_utf8(b).ok()
}

/// A string: its UTF-8 bytes as a run of bytes.
pub open spec fn str_wire(c: Seq<char>) -> Seq<u8> {
    blob_wire(encode_utf8(c))
}

/// Reading a string at the cursor: absent where the length is negative or
/// cannot be read at all, `BAD_VALUE` where the bytes are not UTF-8.
pub open spec fn decode_str(s: ParcelState) -> Decoded<Option<Seq<char>>> {
    match decode_word(s).0 {
        Err(_) => (Ok(None), s.pos),
        Ok(_) => match decode_blob(s) {
            (Ok(Some(b)), p) => if valid_utf8(b) {
                (Ok(Some(decode_utf8(b))), p)
            } else {
                (Err(StatusCode::BAD_VALUE), p)
            },
            (Ok(None), p) => (Ok(None), p),
            (Err(e), p) => (Err(e), p),
        },
    }
}

fn write_str(parcel: &mut Parcel<'_>, s: &str) -> (r: Result<()>)
    requires
        old(parcel).wf(),
    ensures
        final(parcel).wf(),
        final(parcel).is_owned() == old(parcel).is_owned(),
        old(parcel)@.fits(str_wire(s@).len()) ==> r == Ok::<(), StatusCode>(())
            && final(parcel)@ == old(parcel)@.put(str_wire(s@)),
        !old(parcel)@.fits(str_wire(s@).len()) ==> r == Err::<(), StatusCode>(
            StatusCode::BAD_VALUE,
        ),
        final(parcel)@.pos >= old(parcel)@.pos,
{
    write_blob(parcel, s.as_bytes())
}

fn write_null(parcel: &mut Parcel<'_>) -> (r: Result<()>)
    requires
        old(parcel).wf(),
    ensures
        final(parcel).wf(),
        final(parcel).is_owned() == old(parcel).is_owned(),
        null_wire().len() == 4,
        old(parcel)@.fits(4) ==> r == Ok::<(), StatusCode>(())
            && final(parcel)@ == old(parcel)@.put(null_wire()),
        !old(parcel)@.fits(4) ==> r == Err::<(), StatusCode>(StatusCode::BAD_VALUE),
        final(parcel)@.pos >= old(parcel)@.pos,
{
    proof {
        vstd::bytes::lemma_auto_spec_u32_to_from_le_bytes();
        let u = #[verifier::truncate] ((-1i32) as u32);
        assert(spec_u32_to_le_bytes(u).len() == 4);
    }
    write_word(parcel, (-1i32) as u32)
}

fn read_str(parcel: &mut Parcel<'_>) -> (r: Result<Option<String>>)
    requires
        old(parcel).wf(),
    ensures
        final(parcel).wf(),
        final(parcel).is_owned() == old(parcel).is_owned(),
        final(parcel)@.data == old(parcel)@.data,
        result_view(r) == decode_str(old(parcel)@).0,
        r.is_ok() ==> final(parcel)@.pos == decode_str(old(parcel)@).1,
{
    if parcel.get_data_size() - parcel.get_data_position() < 4 {
        return Ok(None);
    }
    let b = match read_blob(parcel)? {
        Some(b) => b,
        None => return Ok(None),
    };
    let ghost bytes = b@;
    match string_from_utf8(b) {
        Some(s) => {
            proof {
                vstd::utf8::encode_utf8_decode_utf8(s@);
            }
            Ok(Some(s))
        },
        None => Err(StatusCode::BAD_VALUE),
    }
}

/// Where the string `c` stands at the cursor, reading gives it back.
pub(crate) proof fn lemma_str_at(c: Seq<char>, s: ParcelState)
    requires
        s.wf(),
        s.holds_at(s.pos as int, str_wire(c)),
    ensures
        decode_str(s) == (Ok::<Option<Seq<char>>, StatusCode>(Some(c)), s.pos + str_wire(c).len()),
{
    lemma_blob_at(encode_utf8(c), s);
    vstd::utf8::encode_utf8_valid_utf8(c);
    vstd::utf8::encode_utf8_decode_utf8(c);
}

proof fn lemma_null_str_at(s: ParcelState)
    requires
        s.wf(),
        s.holds_at(s.pos as int, null_wire()),
    ensures
        decode_str(s) == (Ok::<Option<Seq<char>>, StatusCode>(None), s.pos + 4),
{
    lemma_null_blob_at(s);
}

proof fn lemma_str_wire_len(c: Seq<char>)
    ensures
        str_wire(c).len() >= 4,
{
    vstd::bytes::lemma_auto_spec_u32_to_from_le_bytes();
    let n = encode_utf8(c).len();
    let u = #[verifier::truncate] ((#[verifier::truncate] (n as i32)) as u32);
    assert(spec_u32_to_le_bytes(u).len() == 4);
}

impl Serialize for str {
    open spec fn wire(&self) -> Seq<u8> {
        str_wire(self@)
    }

    proof fn lemma_wire_nonempty(&self) {
        lemma_str_wire_len(self@);
    }

    fn serialize(&self, parcel: &mut Parcel<'_>) -> (r: Result<()>) {
        write_str(parcel, self)
    }
}

impl<'s> Serialize for &'s str {
    open spec fn wire(&self) -> Seq<u8> {
        str_wire((**self)@)
    }

    proof fn lemma_wire_nonempty(&self) {
        lemma_str_wire_len((**self)@);
    }

    fn serialize(&self, parcel: &mut Parcel<'_>) -> (r: Result<()>) {
        write_str(parcel, *self)
    }
}

impl Serialize for String {
    open spec fn wire(&self) -> Seq<u8> {
        str_wire(self@)
    }

    proof fn lemma_wire_nonempty(&self) {
        lemma_str_wire_len(self@);
    }

    fn serialize(&self, parcel: &mut Parcel<'_>) -> (r: Result<()>) {
        write_str(parcel, self.as_str())
    }
}

/// An absent string is the length `-1`.
impl Serialize for Option<String> {
    open spec fn wire(&self) -> Seq<u8> {
        match self {
            Some(s) => str_wire(s@),
            None => null_wire(),
        }
    }

    proof fn lemma_wire_nonempty(&self) {
        vstd::bytes::lemma_auto_spec_u32_to_from_le_bytes();
        let u = #[verifier::truncate] ((-1i32) as u32);
        assert(spec_u32_to_le_bytes(u).len() == 4);
        if let Some(s) = self {
            lemma_str_wire_len(s@);
        }
    }

    fn serialize(&self, parcel: &mut Parcel<'_>) -> (r: Result<()>) {
        match self {
            Some(s) => write_str(parcel, s.as_str()),
            None => write_null(parcel),
        }
    }
}

impl Deserialize for String {
    open spec fn decode(s: ParcelState) -> Decoded<Seq<char>> {
        match decode_str(s) {
            (Ok(Some(c)), p) => (Ok(c), p),
            (Ok(None), p) => (Err(StatusCode::UNEXPECTED_NULL), p),
            (Err(e), p) => (Err(e), p),
        }
    }

    fn deserialize(parcel: &mut Parcel<'_>) -> (r: Result<String>) {
        match read_str(parcel) {
            Ok(Some(s)) => Ok(s),
            Ok(None) => Err(StatusCode::UNEXPECTED_NULL),
            Err(e) => Err(e),
        }
    }
}

impl Deserialize for Option<String> {
    open spec fn decode(s: ParcelState) -> Decoded<Option<Seq<char>>> {
        decode_str(s)
    }

    fn deserialize(parcel: &mut Parcel<'_>) -> (r: Result<Option<String>>) {
        read_str(parcel)
    }
}

impl RoundTrip for String {
    proof fn lemma_decode_wire(v: &String, s: ParcelState) {
        lemma_str_at(v@, s);
    }
}

impl RoundTrip for Option<String> {
    proof fn lemma_decode_wire(v: &Option<String>, s: ParcelState) {
        match v {
            Some(x) => lemma_str_at(x@, s),
            None => {
                lemma_null_str_at(s);
                vstd::bytes::lemma_auto_spec_u32_to_from_le_bytes();
                let u = #[verifier::truncate] ((-1i32) as u32);
                assert(spec_u32_to_le_bytes(u).len() == 4);
            },
        }
    }
}

impl SerializeArray for String {
    open spec fn array_wire(q: Seq<String>) -> Seq<u8> {
        counted_wire(q)
    }

    fn serialize_array(slice: &[String], parcel: &mut Parcel<'_>) -> (r: Result<()>) {
        write_counted(parcel, slice)
    }

    proof fn lemma_array_wire_len(q: Seq<String>) {
        lemma_counted_len(q);
    }
}

impl<'s> SerializeArray for &'s str {
    open spec fn array_wire(q: Seq<&'s str>) -> Seq<u8> {
        counted_wire(q)
    }

    fn serialize_array(slice: &[&'s str], parcel: &mut Parcel<'_>) -> (r: Result<()>) {
        write_counted(parcel, slice)
    }

    proof fn lemma_array_wire_len(q: Seq<&'s str>) {
        lemma_counted_len(q);
    }
}

impl DeserializeArray for String {
    open spec fn decode_array(s: ParcelState) -> Decoded<Option<Seq<Seq<char>>>> {
        decode_counted::<String>(s)
    }

    fn deserialize_array(parcel: &mut Parcel<'_>) -> (r: Result<Option<Vec<String>>>) {
        read_counted(parcel)
    }
}

impl ArrayRoundTrip for String {
    proof fn lemma_decode_array_wire(q: Seq<String>, s: ParcelState) {
        lemma_counted_round_trip(q, s);
    }

    proof fn lemma_decode_array_null(s: ParcelState) {
        lemma_counted_null::<String>(s);
    }
}

} // verus!
