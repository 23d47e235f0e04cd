use vstd::prelude::*;

use crate::buffer::Buffer;
use crate::error::Result;
use crate::model::ParcelState;
use crate::parcel::Parcel;

verus! {

/// A variant of Parcel that is known to be owned: it is the only handle to
/// its buffer, so it may be moved to another thread.
pub struct OwnedParcel {
    buf: Buffer,
}

impl View for OwnedParcel {
    type V = ParcelState;

    closed spec fn view(&self) -> ParcelState {
        self.buf@
    }
}

impl OwnedParcel {
    pub open spec fn wf(&self) -> bool {
        self@.wf()
    }

    /// Create a new empty `OwnedParcel`.
    pub fn new() -> (r: OwnedParcel)
        ensures
            r.wf(),
            r@.data == Seq::<u8>::empty(),
            r@.pos == 0,
    {
        OwnedParcel { buf: Buffer::new() }
    }

    /// Take ownership of a buffer, or nothing where there is no buffer.
    pub fn from_raw(buf: Option<Buffer>) -> (r: Option<OwnedParcel>)
        ensures
            buf is None <==> r is None,
            buf matches Some(b) ==> r matches Some(p) && p@ == b@,
    {
        match buf {
            Some(b) => Some(OwnedParcel { buf: b }),
            None => None,
        }
    }

    /// Consume the parcel, transferring ownership of its buffer to the
    /// caller.
    pub fn into_raw(self) -> (r: Buffer)
        ensures
            r@ == self@,
    {
        self.buf
    }

    /// Convert this `OwnedParcel` into an owned `Parcel`.
    pub fn into_parcel(self) -> (r: Parcel<'static>)
        ensures
            r.is_owned(),
            r@ == self@,
    {
        Parcel::Owned(self.into_raw())
    }

    /// Get a borrowed view into the contents of this `Parcel`; the parcel
    /// cannot be used while the view lives.
    pub fn borrowed(&mut self) -> (r: BorrowedParcel<'_>)
        ensures
            r@ == old(self)@,
            (r.parcel() matches Parcel::Borrowed(b) && final(b)@ == final(self)@),
    {
        BorrowedParcel { inner: Parcel::Borrowed(&mut self.buf) }
    }

    /// A new parcel with the same data, its cursor at the end.
    pub fn clone(&self) -> (r: OwnedParcel)
        requires
            self.wf(),
        ensures
            r.wf(),
            r@.data == self@.data,
            r@.pos == self@.data.len(),
    {
        let mut buf = Buffer::new();
        let _ = buf.append_range(&self.buf, 0, self.buf.size());
        assert(Seq::<u8>::empty() + self@.data.subrange(0, self@.data.len() as int) =~= self@.data);
        OwnedParcel { buf }
    }
}

impl Default for OwnedParcel {
    fn default() -> (r: OwnedParcel)
        ensures
            r.wf(),
            r@.data == Seq::<u8>::empty(),
            r@.pos == 0,
    {
        OwnedParcel::new()
    }
}

/// A variant of Parcel that is known to be borrowed.
pub struct BorrowedParcel<'a> {
    inner: Parcel<'a>,
}

impl<'a> View for BorrowedParcel<'a> {
    type V = ParcelState;

    closed spec fn view(&self) -> ParcelState {
        self.inner@
    }
}

impl<'a> core::ops::Deref for BorrowedParcel<'a> {
    type Target = Parcel<'a>;

    fn deref(&self) -> (r: &Parcel<'a>)
        ensures
            *r == self.parcel(),
    {
        &self.inner
    }
}

impl<'a> core::ops::DerefMut for BorrowedParcel<'a> {
    fn deref_mut(&mut self) -> (r: &mut Parcel<'a>)
        ensures
            *r == old(self).parcel(),
            final(self).parcel() == *final(r),
    {
        &mut self.inner
    }
}

impl<'a> BorrowedParcel<'a> {
    pub closed spec fn parcel(&self) -> Parcel<'a> {
        self.inner
    }
}

} // verus!
