use vstd::bytes::{spec_u32_from_le_bytes, spec_u32_to_le_bytes};
use vstd::prelude::*;

verus! {

/// The largest number of bytes a parcel can hold: positions and sizes are
/// reported as `i32`.
pub const MAX_PARCEL_SIZE: usize = 0x7fff_ffff;

/// `d` with the bytes of `w` laid over it from offset `p`, growing it where
/// `w` runs past its end.
pub open spec fn splice(d: Seq<u8>, p: int, w: Seq<u8>) -> Seq<u8> {
    Seq::new(
        if p + w.len() > d.len() { (p + w.len()) as nat } else { d.len() },
        |k: int| if p <= k < p + w.len() { w[k - p] } else { d[k] },
    )
}

/// What a parcel holds: its bytes and its cursor.
pub struct ParcelState {
    pub data: Seq<u8>,
    pub pos: nat,
}

impl ParcelState {
    /// The cursor lies within the data, and the data fits the size limit.
    pub open spec fn wf(self) -> bool {
        &&& self.data.len() <= MAX_PARCEL_SIZE
        &&& self.pos <= self.data.len()
    }

    /// Whether `n` more bytes can be written at the cursor.
    pub open spec fn fits(self, n: nat) -> bool {
        self.pos + n <= MAX_PARCEL_SIZE
    }

    /// The state after writing `w` at the cursor.
    pub open spec fn put(self, w: Seq<u8>) -> ParcelState {
        ParcelState { data: splice(self.data, self.pos as int, w), pos: self.pos + w.len() }
    }

    /// The state with the cursor moved to `p`.
    pub open spec fn seek(self, p: nat) -> ParcelState {
        ParcelState { data: self.data, pos: p }
    }

    /// Number of bytes between the cursor and the end of the data.
    pub open spec fn remaining(self) -> int {
        self.data.len() - self.pos
    }

    /// Whether `w` stands in the data at offset `p`.
    pub open spec fn holds_at(self, p: int, w: Seq<u8>) -> bool {
        &&& 0 <= p
        &&& p + w.len() <= self.data.len()
        &&& self.data.subrange(p, p + w.len()) == w
    }
}

/// The four little-endian bytes of an `i32`.
pub open spec fn le_i32(x: i32) -> Seq<u8> {
    spec_u32_to_le_bytes(#[verifier::truncate] (x as u32))
}

/// The encoding of an `i32` is four bytes, and reads back as the `i32`.
pub proof fn lemma_i32_round_trip(x: i32)
    ensures
        le_i32(x).len() == 4,
        #[verifier::truncate] (spec_u32_from_le_bytes(le_i32(x)) as i32) == x,
{
    vstd::bytes::lemma_auto_spec_u32_to_from_le_bytes();
    let u = #[verifier::truncate] (x as u32);
    assert(spec_u32_to_le_bytes(u).len() == 4);
    assert(((x as u32) as i32) == x) by (bit_vector);
}

/// Writing `a` then `b` is writing `a + b`.
pub proof fn lemma_put_put(s: ParcelState, a: Seq<u8>, b: Seq<u8>)
    requires
        s.wf(),
    ensures
        s.put(a).put(b) == s.put(a + b),
{
    assert(s.put(a).put(b).data =~= s.put(a + b).data);
}

/// What stands at an offset stands there in every part.
pub proof fn lemma_holds_split(s: ParcelState, p: int, a: Seq<u8>, b: Seq<u8>)
    requires
        s.holds_at(p, a + b),
    ensures
        s.holds_at(p, a),
        s.holds_at(p + a.len(), b),
{
    assert(s.data.subrange(p, p + a.len()) =~= (a + b).subrange(0, a.len() as int));
    assert((a + b).subrange(0, a.len() as int) =~= a);
    assert(s.data.subrange(p + a.len(), p + a.len() + b.len()) =~= (a + b).subrange(
        a.len() as int,
        (a + b).len() as int,
    ));
    assert((a + b).subrange(a.len() as int, (a + b).len() as int) =~= b);
}

/// Writing `w` leaves `w` at the old cursor.
pub proof fn lemma_put_holds(s: ParcelState, w: Seq<u8>)
    requires
        s.wf(),
    ensures
        s.put(w).holds_at(s.pos as int, w),
        s.put(w).data.len() >= s.pos + w.len(),
{
    assert(s.put(w).data.subrange(s.pos as int, s.pos + w.len() as int) =~= w);
}

} // verus!
