use vstd::prelude::*;

pub mod bench;
pub mod cargo_helper;
pub mod client;
pub mod download;
pub mod filesize;
pub mod protocol;
pub mod read;
pub mod response;
pub mod util;

verus! {

/// Represents a number of bytes, as `u64`.
pub type Bytes = u64;

/// Represents a 'chunk', which is just a piece of bytes.
pub type Chunk = Vec<u8>;

/// Represents a list of chunks.
pub type Chunks = Vec<Chunk>;

/// Represents an URL.
pub type URL<'a> = &'a str;

/// Represents a half-open interval `[start, end)` of bytes of a resource.
#[derive(Clone, Copy, Debug, PartialEq, Eq, Structural)]
pub struct RangeBytes(pub Bytes, pub Bytes);

} // verus!
