//! Conversions between the library's request types and the C structures
//! the kernel interfaces take.

use vstd::prelude::*;

verus! {

/// A value that can be written as the C structure `Raw`; whatever the
/// structure points into is kept alive in `Owned`.
pub trait ToC<Raw> {
    type Owned;

    fn to_c(&self, owned: &mut Self::Owned) -> Raw;
}

/// A value that can be read back from the C structure `Raw`.
pub trait FromC<Raw>: Sized {
    fn from_c(raw: Raw) -> Self;
}

/// A value that can be read back from the C structure `Raw` together with
/// the storage its pointers referred to.
pub trait FromCWith<Raw, Owned>: Sized {
    fn from_c(raw: Raw, owned: Owned) -> Self;
}

/// A value with a byte encoding.
pub trait ToBytes {
    fn to_bytes(&self) -> Vec<u8>;
}

} // verus!
