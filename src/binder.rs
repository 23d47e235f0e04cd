use vstd::bytes::{spec_u32_to_le_bytes, spec_u64_to_le_bytes};
use vstd::prelude::*;

use crate::error::{Result, StatusCode};
use crate::model::{lemma_holds_split, lemma_put_put, ParcelState};
use crate::parcel::Parcel;
use crate::parcelable::{
    Deserialize,
    RoundTrip,
    Serialize,
    decode_long, decode_word, lemma_long_at, lemma_word_at, read_long, read_word, write_long,
    write_word, Decoded,
};

verus! {

/// Tag of a record that holds a reference to a remote object.
pub const TYPE_HANDLE: u32 = 0x73682a85;

/// Tag of a record that holds no reference.
pub const TYPE_NULL: u32 = 0x73622a85;

/// A reference to a remote endpoint object, by the handle that names it.
#[derive(Clone, Copy, Debug, PartialEq, Eq, Structural)]
pub struct BinderRef {
    pub handle: u64,
}

impl DeepView for BinderRef {
    type V = BinderRef;

    open spec fn deep_view(&self) -> BinderRef {
        *self
    }
}

/// A reference, or its absence, as a 16-byte record: tag, a zero word, and
/// the handle.
pub open spec fn binder_wire(b: Option<BinderRef>) -> Seq<u8> {
    match b {
        Some(r) => spec_u32_to_le_bytes(TYPE_HANDLE) + spec_u32_to_le_bytes(0) + spec_u64_to_le_bytes(
            r.handle,
        ),
        None => spec_u32_to_le_bytes(TYPE_NULL) + spec_u32_to_le_bytes(0) + spec_u64_to_le_bytes(0),
    }
}

/// Reading a reference: `BAD_TYPE` unless a whole record with a known tag
/// stands at the cursor.
pub open spec fn decode_binder(s: ParcelState) -> Decoded<Option<BinderRef>> {
    if s.remaining() < 16 {
        (Err(StatusCode::BAD_TYPE), s.pos)
    } else {
        let tag = decode_word(s).0->Ok_0;
        let handle = decode_long(s.seek((s.pos + 8) as nat)).0->Ok_0;
        if tag == TYPE_HANDLE {
            (Ok(Some(BinderRef { handle })), (s.pos + 16) as nat)
        } else if tag == TYPE_NULL && handle == 0 {
            (Ok(None), (s.pos + 16) as nat)
        } else {
            (Err(StatusCode::BAD_TYPE), s.pos)
        }
    }
}

impl<'a> Parcel<'a> {
    /// Writes a reference to a remote object, or a record that holds none.
    /// Fails with `BAD_VALUE` when the parcel cannot hold 16 more bytes.
    pub fn write_binder(&mut self, binder: Option<&BinderRef>) -> (r: Result<()>)
        requires
            old(self).wf(),
        ensures
            final(self).wf(),
            ({
                let b = match binder {
                    Some(x) => Some(*x),
                    None => None,
                };
                &&& old(self)@.fits(16) ==> r == Ok::<(), StatusCode>(())
                    && final(self)@ == old(self)@.put(binder_wire(b))
                &&& !old(self)@.fits(16) ==> r == Err::<(), StatusCode>(StatusCode::BAD_VALUE)
                    && final(self)@ == old(self)@
            }),
            final(self).is_owned() == old(self).is_owned(),
    {
        let ghost s0 = self@;
        proof {
            vstd::bytes::lemma_auto_spec_u32_to_from_le_bytes();
            vstd::bytes::lemma_auto_spec_u64_to_from_le_bytes();
            assert(spec_u32_to_le_bytes(0).len() == 4);
            assert(spec_u32_to_le_bytes(TYPE_HANDLE).len() == 4);
            assert(spec_u32_to_le_bytes(TYPE_NULL).len() == 4);
            assert(spec_u64_to_le_bytes(0).len() == 8);
        }
        let (tag, handle) = match binder {
            Some(x) => (TYPE_HANDLE, x.handle),
            None => (TYPE_NULL, 0),
        };
        proof {
            assert(spec_u64_to_le_bytes(handle).len() == 8);
        }
        if !(self.get_data_position() <= 0x7fff_ffff - 16) {
            return Err(StatusCode::BAD_VALUE);
        }
        let _ = write_word(self, tag);
        let _ = write_word(self, 0);
        let _ = write_long(self, handle);
        proof {
            lemma_put_put(s0, spec_u32_to_le_bytes(tag), spec_u32_to_le_bytes(0));
            lemma_put_put(
                s0,
                spec_u32_to_le_bytes(tag) + spec_u32_to_le_bytes(0),
                spec_u64_to_le_bytes(handle),
            );
        }
        Ok(())
    }

    /// Reads a reference to a remote object, `None` for a record that holds
    /// none. Fails with `BAD_TYPE` where no such record stands at the cursor.
    pub fn read_binder(&mut self) -> (r: Result<Option<BinderRef>>)
        requires
            old(self).wf(),
        ensures
            final(self).wf(),
            final(self)@.data == old(self)@.data,
            r == decode_binder(old(self)@).0,
            final(self).is_owned() == old(self).is_owned(),
            final(self)@.pos == decode_binder(old(self)@).1,
    {
        let start = self.get_data_position();
        if self.get_data_size() - start < 16 {
            return Err(StatusCode::BAD_TYPE);
        }
        let tag = read_word(self)?;
        let _ = read_word(self)?;
        let handle = read_long(self)?;
        if tag == TYPE_HANDLE {
            Ok(Some(BinderRef { handle }))
        } else if tag == TYPE_NULL && handle == 0 {
            Ok(None)
        } else {
            let _ = self.set_data_position(start);
            Err(StatusCode::BAD_TYPE)
        }
    }
}

/// Where the record for `b` stands at the cursor, reading gives `b` back.
pub proof fn lemma_binder_at(b: Option<BinderRef>, s: ParcelState)
    requires
        s.wf(),
        s.holds_at(s.pos as int, binder_wire(b)),
    ensures
        binder_wire(b).len() == 16,
        decode_binder(s) == (Ok::<Option<BinderRef>, StatusCode>(b), (s.pos + 16) as nat),
{
    vstd::bytes::lemma_auto_spec_u32_to_from_le_bytes();
    vstd::bytes::lemma_auto_spec_u64_to_from_le_bytes();
    let (tag, handle) = match b {
        Some(x) => (TYPE_HANDLE, x.handle),
        None => (TYPE_NULL, 0u64),
    };
    let a = spec_u32_to_le_bytes(tag);
    let z = spec_u32_to_le_bytes(0);
    let h = spec_u64_to_le_bytes(handle);
    assert(a.len() == 4 && z.len() == 4 && h.len() == 8);
    lemma_holds_split(s, s.pos as int, a + z, h);
    lemma_holds_split(s, s.pos as int, a, z);
    lemma_word_at(tag, s);
    lemma_long_at(handle, s.seek((s.pos + 8) as nat));
}

proof fn lemma_binder_wire_len(b: Option<BinderRef>)
    ensures
        binder_wire(b).len() == 16,
{
    vstd::bytes::lemma_auto_spec_u32_to_from_le_bytes();
    vstd::bytes::lemma_auto_spec_u64_to_from_le_bytes();
    let handle = match b {
        Some(x) => x.handle,
        None => 0u64,
    };
    assert(spec_u32_to_le_bytes(TYPE_HANDLE).len() == 4);
    assert(spec_u32_to_le_bytes(TYPE_NULL).len() == 4);
    assert(spec_u32_to_le_bytes(0).len() == 4);
    assert(spec_u64_to_le_bytes(handle).len() == 8);
}

impl Serialize for BinderRef {
    open spec fn wire(&self) -> Seq<u8> {
        binder_wire(Some(*self))
    }

    proof fn lemma_wire_nonempty(&self) {
        lemma_binder_wire_len(Some(*self));
    }

    fn serialize(&self, parcel: &mut Parcel<'_>) -> (r: Result<()>) {
        proof {
            lemma_binder_wire_len(Some(*self));
        }
        parcel.write_binder(Some(self))
    }
}

/// An absent reference is a record that holds none.
impl Serialize for Option<BinderRef> {
    open spec fn wire(&self) -> Seq<u8> {
        binder_wire(*self)
    }

    proof fn lemma_wire_nonempty(&self) {
        lemma_binder_wire_len(*self);
    }

    fn serialize(&self, parcel: &mut Parcel<'_>) -> (r: Result<()>) {
        proof {
            lemma_binder_wire_len(*self);
        }
        parcel.write_binder(self.as_ref())
    }
}

impl Deserialize for Option<BinderRef> {
    open spec fn decode(s: ParcelState) -> Decoded<Option<BinderRef>> {
        decode_binder(s)
    }

    fn deserialize(parcel: &mut Parcel<'_>) -> (r: Result<Option<BinderRef>>) {
        parcel.read_binder()
    }
}

/// A required reference: a record that holds none reads as
/// `UNEXPECTED_NULL`.
impl Deserialize for BinderRef {
    open spec fn decode(s: ParcelState) -> Decoded<BinderRef> {
        match decode_binder(s) {
            (Ok(Some(b)), p) => (Ok(b), p),
            (Ok(None), p) => (Err(StatusCode::UNEXPECTED_NULL), p),
            (Err(e), p) => (Err(e), p),
        }
    }

    fn deserialize(parcel: &mut Parcel<'_>) -> (r: Result<BinderRef>) {
        match parcel.read_binder() {
            Ok(Some(b)) => Ok(b),
            Ok(None) => Err(StatusCode::UNEXPECTED_NULL),
            Err(e) => Err(e),
        }
    }
}

impl RoundTrip for BinderRef {
    proof fn lemma_decode_wire(v: &BinderRef, s: ParcelState) {
        lemma_binder_at(Some(*v), s);
    }
}

impl RoundTrip for Option<BinderRef> {
    proof fn lemma_decode_wire(v: &Option<BinderRef>, s: ParcelState) {
        lemma_binder_at(*v, s);
    }
}

} // verus!
