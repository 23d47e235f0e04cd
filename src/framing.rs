use vstd::bytes::u32_to_le_bytes;
use vstd::prelude::*;

use crate::error::{Result, StatusCode};
use crate::model::{le_i32, splice, ParcelState};
use crate::parcel::Parcel;
use crate::parcelable::{result_view, Deserialize, Serialize};

verus! {

/// `s` with the length of the block that starts at `start` and ends at the
/// cursor written into the block's first four bytes.
pub open spec fn framed(s: ParcelState, start: nat) -> ParcelState {
    ParcelState {
        data: splice(s.data, start as int, le_i32((s.pos - start) as i32)),
        pos: s.pos,
    }
}

/// A segment of a writable parcel, used for [`Parcel::sized_write`]: the
/// callback writes through it into the parcel, past the start of the block.
pub struct WritableSubParcel<'a> {
    parcel: Parcel<'a>,
}

impl<'a> View for WritableSubParcel<'a> {
    type V = ParcelState;

    closed spec fn view(&self) -> ParcelState {
        self.parcel@
    }
}

impl<'a> WritableSubParcel<'a> {
    #[verifier::type_invariant]
    spec fn inv(&self) -> bool {
        self.parcel.wf()
    }

    /// Write a type that implements [`Serialize`] to the sub-parcel.
    pub fn write<S: Serialize + ?Sized>(&mut self, parcelable: &S) -> (r: Result<()>)
        ensures
            final(self)@.wf(),
            old(self)@.fits(parcelable.wire().len()) ==> r == Ok::<(), StatusCode>(())
                && final(self)@ == old(self)@.put(parcelable.wire()),
            !old(self)@.fits(parcelable.wire().len()) ==> r == Err::<(), StatusCode>(
                StatusCode::BAD_VALUE,
            ),
    {
        let mut held = WritableSubParcel { parcel: Parcel::new() };
        core::mem::swap(self, &mut held);
        proof {
            use_type_invariant(&held);
        }
        let WritableSubParcel { mut parcel } = held;
        let r = parcelable.serialize(&mut parcel);
        let mut back = WritableSubParcel { parcel };
        core::mem::swap(self, &mut back);
        r
    }

    fn into_inner(self) -> (r: Parcel<'a>)
        ensures
            r@ == self@,
            r.wf(),
    {
        proof {
            use_type_invariant(&self);
        }
        self.parcel
    }
}

/// A segment of a readable parcel, used for [`Parcel::sized_read`]: reads go
/// to the parcel, and the segment knows where the block ends.
pub struct ReadableSubParcel<'a> {
    parcel: Parcel<'a>,
    end_position: i32,
}

impl<'a> View for ReadableSubParcel<'a> {
    type V = ParcelState;

    closed spec fn view(&self) -> ParcelState {
        self.parcel@
    }
}

impl<'a> ReadableSubParcel<'a> {
    #[verifier::type_invariant]
    spec fn inv(&self) -> bool {
        &&& self.parcel.wf()
        &&& 0 <= self.end_position <= self.parcel@.data.len()
    }

    /// The offset where the block ends.
    pub closed spec fn end(&self) -> int {
        self.end_position as int
    }

    /// Read a type that implements [`Deserialize`] from the sub-parcel; the
    /// cursor must still lie before the end of the block.
    pub fn read<D: Deserialize>(&mut self) -> (r: Result<D>)
        requires
            old(self)@.pos < old(self).end(),
        ensures
            final(self).end() == old(self).end(),
            final(self)@.data == old(self)@.data,
            result_view(r) == D::decode(old(self)@).0,
            r.is_ok() ==> final(self)@.pos == D::decode(old(self)@).1,
    {
        let mut held = ReadableSubParcel { parcel: Parcel::new(), end_position: 0 };
        core::mem::swap(self, &mut held);
        proof {
            use_type_invariant(&held);
        }
        let ReadableSubParcel { mut parcel, end_position } = held;
        let r = D::deserialize(&mut parcel);
        let mut back = ReadableSubParcel { parcel, end_position };
        core::mem::swap(self, &mut back);
        r
    }

    /// Check if the sub-parcel has more data to read.
    pub fn has_more_data(&self) -> (r: bool)
        ensures
            r == (self@.pos < self.end()),
    {
        proof {
            use_type_invariant(self);
        }
        self.parcel.get_data_position() < self.end_position
    }

    fn into_inner(self) -> (r: Parcel<'a>)
        ensures
            r@ == self@,
            r.wf(),
    {
        proof {
            use_type_invariant(&self);
        }
        self.parcel
    }
}

impl<'a> Parcel<'a> {
    /// Perform a series of writes to the `Parcel`, prepended with the length
    /// (in bytes) of the written data.
    ///
    /// The length `0i32` is written first, then the callback writes through
    /// a sub-parcel. On success the length is patched to the size of the
    /// whole block, its four length bytes included, and the cursor ends after
    /// the block. A callback error is returned as it is, with no patch.
    pub fn sized_write<F>(&mut self, f: F) -> (r: Result<()>) where
        F: FnOnce(&mut WritableSubParcel<'a>) -> Result<()>,

        requires
            old(self).wf(),
            forall|sub: &mut WritableSubParcel<'a>| f.requires((sub,)),
        ensures
            final(self).wf(),
            !old(self)@.fits(4) ==> r == Err::<(), StatusCode>(StatusCode::BAD_VALUE)
                && final(self)@ == old(self)@,
            old(self)@.fits(4) ==> exists|sub: &mut WritableSubParcel<'a>, rc: Result<()>|
                {
                    &&& f.ensures((sub,), rc)
                    &&& (*sub)@ == old(self)@.put(le_i32(0))
                    &&& rc is Err ==> r == rc && final(self)@ == (*final(sub))@
                    &&& rc is Ok && (*final(sub))@.pos >= old(self)@.pos ==> r is Ok
                        && final(self)@ == framed((*final(sub))@, old(self)@.pos)
                    &&& rc is Ok && (*final(sub))@.pos < old(self)@.pos ==> r == Err::<
                        (),
                        StatusCode,
                    >(StatusCode::BAD_VALUE) && final(self)@ == (*final(sub))@
                },
    {
        let start = self.get_data_position();
        let zero = u32_to_le_bytes(0);
        proof {
            vstd::bytes::lemma_auto_spec_u32_to_from_le_bytes();
            assert(zero@ == le_i32(0));
        }
        self.write_bytes(zero.as_slice())?;
        let mut taken = Parcel::new();
        core::mem::swap(self, &mut taken);
        let mut sub = WritableSubParcel { parcel: taken };
        let ghost sub0 = sub;
        let rc = f(&mut sub);
        let ghost w = choose|w: &mut WritableSubParcel<'a>|
            f.ensures((w,), rc) && *w == sub0 && *final(w) == sub;
        let mut back = sub.into_inner();
        core::mem::swap(self, &mut back);
        if let Err(e) = rc {
            return Err(e);
        }
        let ghost t = self@;
        assert(t == (*final(w))@);
        let end = self.get_data_position();
        if end < start {
            return Err(StatusCode::BAD_VALUE);
        }
        let _ = self.set_data_position(start);
        let len = u32_to_le_bytes((end - start) as u32);
        proof {
            assert(len@ == le_i32((end - start) as i32));
        }
        let _ = self.write_bytes(len.as_slice());
        let _ = self.set_data_position(end);
        assert(self@ == framed(t, start as nat));
        Ok(())
    }

    /// Safely read a sized parcelable.
    ///
    /// Reads the block's length `L` at the cursor `start`; fails with
    /// `BAD_VALUE` when `L` is negative or `start + L` overflows an `i32`,
    /// and with `NOT_ENOUGH_DATA` when the block runs past the data. Then the
    /// callback reads through a sub-parcel that knows the block ends at
    /// `start + L`; on success the cursor is moved to `start + L`, however
    /// much the callback read.
    pub fn sized_read<T, F>(&mut self, f: F) -> (r: Result<T>) where
        F: FnOnce(&mut ReadableSubParcel<'a>) -> Result<T>,

        requires
            old(self).wf(),
            forall|sub: &mut ReadableSubParcel<'a>| f.requires((sub,)),
        ensures
            final(self).wf(),
            ({
                let s = old(self)@;
                match i32::decode(s).0 {
                    Err(_) => r == Err::<T, StatusCode>(StatusCode::NOT_ENOUGH_DATA),
                    Ok(l) => if l < 0 || s.pos + l > i32::MAX {
                        r == Err::<T, StatusCode>(StatusCode::BAD_VALUE)
                    } else if s.pos + l > s.data.len() {
                        r == Err::<T, StatusCode>(StatusCode::NOT_ENOUGH_DATA)
                    } else {
                        exists|sub: &mut ReadableSubParcel<'a>, rc: Result<T>|
                            {
                                &&& f.ensures((sub,), rc)
                                &&& (*sub)@ == s.seek((s.pos + 4) as nat)
                                &&& sub.end() == s.pos + l
                                &&& rc is Err ==> r == rc && final(self)@ == (*final(sub))@
                                &&& rc is Ok && s.pos + l <= (*final(sub))@.data.len() ==> r
                                    == rc && final(self)@ == (*final(sub))@.seek(
                                    (s.pos + l) as nat,
                                )
                                &&& rc is Ok && s.pos + l > (*final(sub))@.data.len() ==> r
                                    == Err::<T, StatusCode>(StatusCode::BAD_VALUE)
                                        && final(self)@ == (*final(sub))@
                            }
                    },
                }
            }),
    {
        let start = self.get_data_position();
        let parcelable_size = i32::deserialize(self)?;
        if parcelable_size < 0 {
            return Err(StatusCode::BAD_VALUE);
        }
        let end = match start.checked_add(parcelable_size) {
            Some(e) => e,
            None => return Err(StatusCode::BAD_VALUE),
        };
        if end > self.get_data_size() {
            return Err(StatusCode::NOT_ENOUGH_DATA);
        }
        let mut taken = Parcel::new();
        core::mem::swap(self, &mut taken);
        let mut sub = ReadableSubParcel { parcel: taken, end_position: end };
        let ghost sub0 = sub;
        let rc = f(&mut sub);
        let ghost w = choose|w: &mut ReadableSubParcel<'a>|
            f.ensures((w,), rc) && *w == sub0 && *final(w) == sub;
        let mut back = sub.into_inner();
        core::mem::swap(self, &mut back);
        let v = rc?;
        self.set_data_position(end)?;
        Ok(v)
    }
}

} // verus!
