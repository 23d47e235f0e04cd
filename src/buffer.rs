use vstd::prelude::*;

use crate::error::{Result, StatusCode};
use crate::model::{splice, ParcelState, MAX_PARCEL_SIZE};

verus! {

/// The byte store behind a parcel: the data, the cursor, and whether the
/// contents are sensitive.
pub struct Buffer {
    data: Vec<u8>,
    pos: usize,
    sensitive: bool,
}

impl View for Buffer {
    type V = ParcelState;

    closed spec fn view(&self) -> ParcelState {
        ParcelState { data: self.data@, pos: self.pos as nat }
    }
}

impl Buffer {
    pub open spec fn wf(&self) -> bool {
        self@.wf()
    }

    pub closed spec fn is_sensitive(&self) -> bool {
        self.sensitive
    }

    /// An empty buffer with the cursor at the start.
    pub fn new() -> (r: Buffer)
        ensures
            r.wf(),
            r@.data == Seq::<u8>::empty(),
            r@.pos == 0,
            !r.is_sensitive(),
    {
        let data: Vec<u8> = Vec::new();
        assert(data@ =~= Seq::<u8>::empty());
        Buffer { data, pos: 0, sensitive: false }
    }

    pub fn size(&self) -> (r: usize)
        ensures
            r == self@.data.len(),
    {
        self.data.len()
    }

    pub fn position(&self) -> (r: usize)
        ensures
            r == self@.pos,
    {
        self.pos
    }

    /// Moves the cursor to `p`, which lies within the data.
    pub fn set_position(&mut self, p: usize)
        requires
            old(self).wf(),
            p <= old(self)@.data.len(),
        ensures
            final(self).wf(),
            final(self)@ == old(self)@.seek(p as nat),
            final(self).is_sensitive() == old(self).is_sensitive(),
    {
        self.pos = p;
    }

    /// Flags the contents as sensitive.
    pub fn mark_sensitive(&mut self)
        ensures
            final(self)@ == old(self)@,
            final(self).is_sensitive(),
    {
        self.sensitive = true;
    }

    /// Writes `w` at the cursor, overwriting what stands there and growing
    /// the data where `w` runs past its end; the cursor moves past `w`.
    /// Fails with `BAD_VALUE` when the data would outgrow the size limit.
    pub fn write_bytes(&mut self, w: &[u8]) -> (r: Result<()>)
        requires
            old(self).wf(),
        ensures
            final(self).wf(),
            final(self).is_sensitive() == old(self).is_sensitive(),
            old(self)@.fits(w@.len()) ==> r == Ok::<(), StatusCode>(())
                && final(self)@ == old(self)@.put(w@),
            !old(self)@.fits(w@.len()) ==> r == Err::<(), StatusCode>(StatusCode::BAD_VALUE)
                && final(self)@ == old(self)@,
    {
        if w.len() > MAX_PARCEL_SIZE - self.pos {
            return Err(StatusCode::BAD_VALUE);
        }
        let ghost d0 = self.data@;
        let p = self.pos;
        let mut i: usize = 0;
        while i < w.len()
            invariant
                i <= w@.len(),
                p == old(self)@.pos,
                self.pos == p,
                self.sensitive == old(self).sensitive,
                p + w@.len() <= MAX_PARCEL_SIZE,
                d0 == old(self)@.data,
                p <= d0.len(),
                self.data@ == splice(d0, p as int, w@.take(i as int)),
            decreases w@.len() - i,
        {
            let ghost before = self.data@;
            if p + i < self.data.len() {
                self.data.set(p + i, w[i]);
            } else {
                self.data.push(w[i]);
            }
            i = i + 1;
            assert(self.data@ =~= splice(d0, p as int, w@.take(i as int)));
        }
        assert(w@.take(w@.len() as int) =~= w@);
        self.pos = p + w.len();
        Ok(())
    }

    /// Reads `n` bytes at the cursor and moves the cursor past them; fails
    /// with `NOT_ENOUGH_DATA` when fewer than `n` bytes remain.
    pub fn read_bytes(&mut self, n: usize) -> (r: Result<Vec<u8>>)
        requires
            old(self).wf(),
        ensures
            final(self).wf(),
            final(self).is_sensitive() == old(self).is_sensitive(),
            n <= old(self)@.remaining() ==> r.is_ok() && r.unwrap()@ == old(self)@.data.subrange(
                old(self)@.pos as int,
                old(self)@.pos + n,
            ) && final(self)@ == old(self)@.seek((old(self)@.pos + n) as nat),
            n > old(self)@.remaining() ==> r == Err::<Vec<u8>, StatusCode>(
                StatusCode::NOT_ENOUGH_DATA,
            ) && final(self)@ == old(self)@,
    {
        if n > self.data.len() - self.pos {
            return Err(StatusCode::NOT_ENOUGH_DATA);
        }
        let mut out: Vec<u8> = Vec::new();
        let p = self.pos;
        let mut i: usize = 0;
        while i < n
            invariant
                i <= n,
                p + n <= self.data@.len(),
                self.data@.len() <= MAX_PARCEL_SIZE,
                out@ == self.data@.subrange(p as int, p + i),
            decreases n - i,
        {
            out.push(self.data[p + i]);
            i = i + 1;
            assert(out@ =~= self.data@.subrange(p as int, p + i));
        }
        self.pos = p + n;
        Ok(out)
    }

    /// Appends `len` bytes of `src` from offset `start` to the end of the
    /// data and moves the cursor to the new end. Fails with `BAD_VALUE`, and
    /// changes nothing, when the result would outgrow the size limit.
    pub fn append_range(&mut self, src: &Buffer, start: usize, len: usize) -> (r: Result<()>)
        requires
            old(self).wf(),
            src.wf(),
            start + len <= src@.data.len(),
        ensures
            final(self).wf(),
            final(self).is_sensitive() == old(self).is_sensitive(),
            old(self)@.data.len() + len <= MAX_PARCEL_SIZE ==> r == Ok::<(), StatusCode>(())
                && final(self)@ == (ParcelState {
                data: old(self)@.data + src@.data.subrange(start as int, start + len),
                pos: (old(self)@.data.len() + len) as nat,
            }),
            old(self)@.data.len() + len > MAX_PARCEL_SIZE ==> r == Err::<(), StatusCode>(
                StatusCode::BAD_VALUE,
            ) && final(self)@ == old(self)@,
    {
        if len > MAX_PARCEL_SIZE - self.data.len() {
            return Err(StatusCode::BAD_VALUE);
        }
        let ghost d0 = self.data@;
        let mut i: usize = 0;
        while i < len
            invariant
                i <= len,
                start + len <= src@.data.len(),
                src@.data.len() <= MAX_PARCEL_SIZE,
                d0.len() + len <= MAX_PARCEL_SIZE,
                self.data@ == d0 + src@.data.subrange(start as int, start + i),
                self.sensitive == old(self).sensitive,
            decreases len - i,
        {
            self.data.push(src.data[start + i]);
            i = i + 1;
            assert(self.data@ =~= d0 + src@.data.subrange(start as int, start + i));
        }
        self.pos = self.data.len();
        Ok(())
    }
}

} // verus!
