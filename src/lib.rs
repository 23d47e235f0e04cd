//! Container for messages sent across a process boundary.
//!
//! A parcel is a byte buffer with a cursor. Values are written into it and
//! read back in the same order through the [`Serialize`] and [`Deserialize`]
//! traits; [`Parcel::sized_write`] and [`Parcel::sized_read`] frame blocks
//! with their length so that readers can skip what they do not understand;
//! [`Parcel::append_from`] splices byte ranges between parcels.

pub mod arrays;
pub mod binder;
pub mod blob;
pub mod buffer;
pub mod error;
pub mod framing;
pub mod laws;
pub mod model;
pub mod owned;
pub mod parcel;
pub mod parcelable;
pub mod strings;

pub use arrays::{ArrayRoundTrip, DeserializeArray, SerializeArray};
pub use binder::BinderRef;
pub use buffer::Buffer;
pub use error::{Result, StatusCode};
pub use framing::{ReadableSubParcel, WritableSubParcel};
pub use model::{ParcelState, MAX_PARCEL_SIZE};
pub use owned::{BorrowedParcel, OwnedParcel};
pub use parcel::Parcel;
pub use parcelable::{Deserialize, RoundTrip, Serialize};
