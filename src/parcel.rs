use vstd::prelude::*;

use crate::buffer::Buffer;
use crate::error::{Result, StatusCode};
use crate::model::{le_i32, ParcelState, MAX_PARCEL_SIZE};
use crate::parcelable::{result_view, write_word, Deserialize, Serialize};

verus! {

/// Container for a message: serialized data that the other side of a
/// process boundary reads back in the same order.
///
/// An `Owned` parcel owns its buffer; a `Borrowed` one is a view over a
/// buffer that lives elsewhere, and dropping it leaves that buffer alone.
pub enum Parcel<'a> {
    /// Owned buffer.
    Owned(Buffer),
    /// Borrowed buffer.
    Borrowed(&'a mut Buffer),
}

impl<'a> View for Parcel<'a> {
    type V = ParcelState;

    open spec fn view(&self) -> ParcelState {
        match self {
            Parcel::Owned(b) => b@,
            Parcel::Borrowed(b) => (**b)@,
        }
    }
}

impl<'a> Default for Parcel<'a> {
    fn default() -> (r: Parcel<'a>)
        ensures
            r.wf(),
            r.is_owned(),
            r@.data == Seq::<u8>::empty(),
            r@.pos == 0,
    {
        Parcel::new()
    }
}

impl<'a> Parcel<'a> {
    pub open spec fn wf(&self) -> bool {
        self@.wf()
    }

    pub open spec fn is_owned(&self) -> bool {
        self is Owned
    }

    /// Whether the contents are marked sensitive.
    pub open spec fn is_sensitive(&self) -> bool {
        match self {
            Parcel::Owned(b) => b.is_sensitive(),
            Parcel::Borrowed(b) => (**b).is_sensitive(),
        }
    }

    /// Create a new empty, owned `Parcel`.
    pub fn new() -> (r: Parcel<'a>)
        ensures
            r.wf(),
            r.is_owned(),
            r@.data == Seq::<u8>::empty(),
            r@.pos == 0,
    {
        Parcel::Owned(Buffer::new())
    }

    /// A borrowed view over `buf`, or nothing where there is no buffer.
    /// Writes through the view reach `buf`; dropping it leaves `buf` alone.
    pub fn borrowed(buf: Option<&'a mut Buffer>) -> (r: Option<Parcel<'a>>)
        ensures
            buf is None <==> r is None,
            buf matches Some(b) ==> (r matches Some(p) && (p@ == (*b)@
                && (p matches Parcel::Borrowed(
                pb,
            ) && final(pb)@ == final(b)@))),
    {
        match buf {
            Some(b) => Some(Parcel::Borrowed(b)),
            None => None,
        }
    }

    fn buffer(&self) -> (r: &Buffer)
        ensures
            r@ == self@,
    {
        match self {
            Parcel::Owned(b) => b,
            Parcel::Borrowed(b) => &**b,
        }
    }

    /// Returns the current position in the parcel data.
    pub fn get_data_position(&self) -> (r: i32)
        requires
            self.wf(),
        ensures
            r == self@.pos,
    {
        self.buffer().position() as i32
    }

    /// Returns the total size of the parcel.
    pub fn get_data_size(&self) -> (r: i32)
        requires
            self.wf(),
        ensures
            r == self@.data.len(),
    {
        self.buffer().size() as i32
    }

    /// Move the current read/write position in the parcel. Fails with
    /// `BAD_VALUE`, leaving the parcel as it was, when `pos` is negative or
    /// past the end of the data.
    pub fn set_data_position(&mut self, pos: i32) -> (r: Result<()>)
        requires
            old(self).wf(),
        ensures
            final(self).wf(),
            final(self).is_owned() == old(self).is_owned(),
            0 <= pos <= old(self)@.data.len() ==> r == Ok::<(), StatusCode>(()) && final(self)@
                == old(self)@.seek(pos as nat),
            !(0 <= pos <= old(self)@.data.len()) ==> r == Err::<(), StatusCode>(
                StatusCode::BAD_VALUE,
            ) && final(self)@ == old(self)@,
    {
        if pos < 0 || pos as usize > self.buffer().size() {
            return Err(StatusCode::BAD_VALUE);
        }
        match self {
            Parcel::Owned(b) => b.set_position(pos as usize),
            Parcel::Borrowed(b) => b.set_position(pos as usize),
        }
        Ok(())
    }

    /// Marks the contents sensitive; the data and the cursor stay as they
    /// are, and marking twice is marking once.
    pub fn mark_sensitive(&mut self)
        ensures
            final(self)@ == old(self)@,
            final(self).is_owned() == old(self).is_owned(),
            final(self).is_sensitive(),
    {
        match self {
            Parcel::Owned(b) => b.mark_sensitive(),
            Parcel::Borrowed(b) => b.mark_sensitive(),
        }
    }

    /// Writes the bytes `w` at the cursor and moves the cursor past them,
    /// overwriting what stood there and growing the data as needed. Fails
    /// with `BAD_VALUE`, leaving the parcel as it was, when the data would
    /// outgrow `MAX_PARCEL_SIZE`.
    pub fn write_bytes(&mut self, w: &[u8]) -> (r: Result<()>)
        requires
            old(self).wf(),
        ensures
            final(self).wf(),
            final(self).is_owned() == old(self).is_owned(),
            old(self)@.fits(w@.len()) ==> r == Ok::<(), StatusCode>(())
                && final(self)@ == old(self)@.put(w@),
            !old(self)@.fits(w@.len()) ==> r == Err::<(), StatusCode>(StatusCode::BAD_VALUE)
                && final(self)@ == old(self)@,
    {
        match self {
            Parcel::Owned(b) => b.write_bytes(w),
            Parcel::Borrowed(b) => b.write_bytes(w),
        }
    }

    /// Reads `n` bytes at the cursor and moves the cursor past them. Fails
    /// with `NOT_ENOUGH_DATA`, leaving the parcel as it was, when fewer than
    /// `n` bytes remain.
    pub fn read_bytes(&mut self, n: usize) -> (r: Result<Vec<u8>>)
        requires
            old(self).wf(),
        ensures
            final(self).wf(),
            final(self).is_owned() == old(self).is_owned(),
            n <= old(self)@.remaining() ==> r.is_ok() && r.unwrap()@ == old(self)@.data.subrange(
                old(self)@.pos as int,
                old(self)@.pos + n,
            ) && final(self)@ == old(self)@.seek((old(self)@.pos + n) as nat),
            n > old(self)@.remaining() ==> r == Err::<Vec<u8>, StatusCode>(
                StatusCode::NOT_ENOUGH_DATA,
            ) && final(self)@ == old(self)@,
    {
        match self {
            Parcel::Owned(b) => b.read_bytes(n),
            Parcel::Borrowed(b) => b.read_bytes(n),
        }
    }
}

impl<'a> Parcel<'a> {
    /// Write a type that implements [`Serialize`] to the `Parcel`.
    pub fn write<S: Serialize + ?Sized>(&mut self, parcelable: &S) -> (r: Result<()>)
        requires
            old(self).wf(),
        ensures
            final(self).wf(),
            final(self).is_owned() == old(self).is_owned(),
            old(self)@.fits(parcelable.wire().len()) ==> r == Ok::<(), StatusCode>(())
                && final(self)@ == old(self)@.put(parcelable.wire()),
            !old(self)@.fits(parcelable.wire().len()) ==> r == Err::<(), StatusCode>(
                StatusCode::BAD_VALUE,
            ),
    {
        parcelable.serialize(self)
    }

    /// Attempt to read a type that implements [`Deserialize`] from this
    /// `Parcel`. The data is left as it is; on success the cursor moves past
    /// the value.
    pub fn read<D: Deserialize>(&mut self) -> (r: Result<D>)
        requires
            old(self).wf(),
        ensures
            final(self).wf(),
            final(self).is_owned() == old(self).is_owned(),
            final(self)@.data == old(self)@.data,
            result_view(r) == D::decode(old(self)@).0,
            r.is_ok() ==> final(self)@.pos == D::decode(old(self)@).1,
    {
        D::deserialize(self)
    }

    /// Attempt to read a type that implements [`Deserialize`] from this
    /// `Parcel` onto an existing value, which is replaced on success and left
    /// as it was on failure.
    pub fn read_onto<D: Deserialize>(&mut self, x: &mut D) -> (r: Result<()>)
        requires
            old(self).wf(),
        ensures
            final(self).wf(),
            final(self)@.data == old(self)@.data,
            D::decode(old(self)@).0 matches Err(e) ==> r == Err::<(), StatusCode>(e)
                && *final(x) == *old(x),
            D::decode(old(self)@).0 matches Ok(v) ==> r is Ok && final(x).deep_view() == v
                && final(self)@.pos == D::decode(old(self)@).1,
    {
        let v = D::deserialize(self)?;
        *x = v;
        Ok(())
    }

    /// Append a subset of another `Parcel`: `size` bytes of `other` from
    /// offset `start` go to the end of this parcel's data, and the cursor
    /// moves to the new end. Fails with `BAD_VALUE`, changing nothing, when
    /// `start` or `size` is negative, the range runs past the end of
    /// `other`, or the result would outgrow `MAX_PARCEL_SIZE`.
    pub fn append_from(&mut self, other: &Parcel<'_>, start: i32, size: i32) -> (r: Result<()>)
        requires
            old(self).wf(),
            other.wf(),
        ensures
            final(self).wf(),
            final(self).is_owned() == old(self).is_owned(),
            ({
                let ok = 0 <= start && 0 <= size && start + size <= other@.data.len()
                    && old(self)@.data.len() + size <= MAX_PARCEL_SIZE;
                &&& ok ==> r == Ok::<(), StatusCode>(()) && final(self)@ == (ParcelState {
                    data: old(self)@.data + other@.data.subrange(start as int, start + size),
                    pos: (old(self)@.data.len() + size) as nat,
                })
                &&& !ok ==> r == Err::<(), StatusCode>(StatusCode::BAD_VALUE) && final(self)@
                    == old(self)@
            }),
    {
        if start < 0 || size < 0 || size > other.get_data_size() - start {
            return Err(StatusCode::BAD_VALUE);
        }
        let src = other.buffer();
        match self {
            Parcel::Owned(b) => b.append_range(src, start as usize, size as usize),
            Parcel::Borrowed(b) => b.append_range(src, start as usize, size as usize),
        }
    }

    /// Append the contents of another `Parcel`.
    pub fn append_all_from(&mut self, other: &Parcel<'_>) -> (r: Result<()>)
        requires
            old(self).wf(),
            other.wf(),
        ensures
            final(self).wf(),
            final(self).is_owned() == old(self).is_owned(),
            old(self)@.data.len() + other@.data.len() <= MAX_PARCEL_SIZE ==> r
                == Ok::<(), StatusCode>(())
                && final(self)@ == (ParcelState {
                data: old(self)@.data + other@.data,
                pos: (old(self)@.data.len() + other@.data.len()) as nat,
            }),
            old(self)@.data.len() + other@.data.len() > MAX_PARCEL_SIZE ==> r
                == Err::<(), StatusCode>(
                StatusCode::BAD_VALUE,
            ) && final(self)@ == old(self)@,
    {
        let r = self.append_from(other, 0, other.get_data_size());
        assert(other@.data.subrange(0, other@.data.len() as int) =~= other@.data);
        r
    }

    /// A new owned parcel with the same data as this one, built by appending
    /// all of it to an empty parcel; its cursor stands at the end.
    pub fn clone(&self) -> (r: Parcel<'static>)
        requires
            self.wf(),
        ensures
            r.wf(),
            r.is_owned(),
            r@.data == self@.data,
            r@.pos == self@.data.len(),
    {
        let mut new_parcel = Parcel::new();
        let _ = new_parcel.append_all_from(self);
        assert(Seq::<u8>::empty() + self@.data =~= self@.data);
        new_parcel
    }
}

/// `v` brought to length `n`: cut where it is longer, kept as a prefix where
/// it is shorter.
pub open spec fn resized<D>(old_v: Seq<D>, new_v: Seq<D>, n: nat) -> bool {
    &&& new_v.len() == n
    &&& n <= old_v.len() ==> new_v == old_v.take(n as int)
    &&& n > old_v.len() ==> new_v.take(old_v.len() as int) == old_v
}

fn resize_with_default<D: Default>(v: &mut Vec<D>, n: usize)
    ensures
        resized(old(v)@, final(v)@, n as nat),
{
    if n <= v.len() {
        v.truncate(n);
        return;
    }
    let ghost v0 = v@;
    while v.len() < n
        invariant
            v0 == old(v)@,
            v0.len() < n,
            v0.len() <= v@.len() <= n,
            v@.take(v0.len() as int) == v0,
        decreases n - v@.len(),
    {
        let ghost before = v@;
        v.push(D::default());
        assert(v@.take(v0.len() as int) =~= before.take(v0.len() as int));
    }
}

impl<'a> Parcel<'a> {
    /// Writes the length of a slice to the `Parcel`, or `-1` where there is
    /// no slice. Fails with `BAD_VALUE`, changing nothing, when the length
    /// does not fit an `i32` or the parcel cannot hold four more bytes.
    pub fn write_slice_size<T>(&mut self, slice: Option<&[T]>) -> (r: Result<()>)
        requires
            old(self).wf(),
        ensures
            final(self).wf(),
            ({
                let len: int = match slice {
                    Some(s) => s@.len() as int,
                    None => -1,
                };
                &&& len > i32::MAX ==> r == Err::<(), StatusCode>(StatusCode::BAD_VALUE)
                    && final(self)@ == old(self)@
                &&& len <= i32::MAX && old(self)@.fits(4) ==> r == Ok::<(), StatusCode>(())
                    && final(self)@ == old(self)@.put(le_i32(len as i32))
                &&& len <= i32::MAX && !old(self)@.fits(4) ==> r == Err::<(), StatusCode>(
                    StatusCode::BAD_VALUE,
                ) && final(self)@ == old(self)@
            }),
    {
        let len: i32 = match slice {
            Some(s) => {
                if s.len() > i32::MAX as usize {
                    return Err(StatusCode::BAD_VALUE);
                }
                s.len() as i32
            },
            None => -1,
        };
        proof {
            vstd::bytes::lemma_auto_spec_u32_to_from_le_bytes();
        }
        write_word(self, len as u32)
    }

    /// Reads a vector size from the `Parcel` and resizes `out_vec` to it,
    /// filling new places with default values. Fails with
    /// `UNEXPECTED_NULL` where the size is negative, and with the read's
    /// error where it cannot be read; `out_vec` is then left as it was.
    pub fn resize_out_vec<D: Default + Deserialize>(&mut self, out_vec: &mut Vec<D>) -> (r: Result<()>)
        requires
            old(self).wf(),
        ensures
            final(self).wf(),
            final(self)@.data == old(self)@.data,
            match i32::decode(old(self)@).0 {
                Err(e) => r == Err::<(), StatusCode>(e) && final(out_vec)@ == old(out_vec)@,
                Ok(len) => if len < 0 {
                    r == Err::<(), StatusCode>(StatusCode::UNEXPECTED_NULL)
                        && final(out_vec)@ == old(out_vec)@
                } else {
                    r == Ok::<(), StatusCode>(())
                        && resized(old(out_vec)@, final(out_vec)@, len as nat)
                        && final(self)@.pos == i32::decode(old(self)@).1
                },
            },
    {
        let len = i32::deserialize(self)?;
        if len < 0 {
            return Err(StatusCode::UNEXPECTED_NULL);
        }
        resize_with_default(out_vec, len as usize);
        Ok(())
    }

    /// Reads a vector size from the `Parcel` and sets `out_vec` to a vector
    /// of that many default values, or to `None` where the size is negative.
    /// Fails with the read's error, leaving `out_vec` as it was, where the
    /// size cannot be read.
    pub fn resize_nullable_out_vec<D: Default + Deserialize>(
        &mut self,
        out_vec: &mut Option<Vec<D>>,
    ) -> (r: Result<()>)
        requires
            old(self).wf(),
        ensures
            final(self).wf(),
            final(self)@.data == old(self)@.data,
            match i32::decode(old(self)@).0 {
                Err(e) => r == Err::<(), StatusCode>(e) && *final(out_vec) == *old(out_vec),
                Ok(len) => r == Ok::<(), StatusCode>(()) && final(self)@.pos == i32::decode(
                    old(self)@,
                ).1 && if len < 0 {
                    *final(out_vec) is None
                } else {
                    *final(out_vec) matches Some(v) && v@.len() == len
                },
            },
    {
        let len = i32::deserialize(self)?;
        if len < 0 {
            *out_vec = None;
        } else {
            let mut vec: Vec<D> = Vec::with_capacity(len as usize);
            resize_with_default(&mut vec, len as usize);
            *out_vec = Some(vec);
        }
        Ok(())
    }
}

} // verus!
