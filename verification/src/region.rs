//! The trusted boundary around the writable memory-mapped region.
//!
//! The segment's backing storage is a `memmap::MmapMut`. Verus sees that type
//! as opaque, so its contents are given a name, `region_bytes`, and every
//! access the library makes goes through a small wrapper whose contract is
//! stated over that name.

use vstd::prelude::*;

verus! {

#[verifier::external_type_specification]
#[verifier::external_body]
pub struct ExMmapMut(memmap::MmapMut);

#[verifier::external_type_specification]
#[verifier::external_body]
pub struct ExIoError(std::io::Error);

/// The bytes of the mapped region, in order.
pub uninterp spec fn region_bytes(m: memmap::MmapMut) -> Seq<u8>;

/// `s` with `data` written over the range starting at `at`; everything
/// outside that range is unchanged.
pub open spec fn splice(s: Seq<u8>, at: int, data: Seq<u8>) -> Seq<u8>
    recommends
        0 <= at,
        at + data.len() <= s.len(),
{
    s.subrange(0, at) + data + s.subrange(at + data.len(), s.len() as int)
}

/// Relies on `memmap::MmapMut`'s `Deref` to `[u8]`: the length of the mapped
/// region.
#[verifier::external_body]
pub(crate) fn region_len(m: &memmap::MmapMut) -> (n: usize)
    ensures
        n == region_bytes(*m).len(),
{
    m.len()
}

/// Relies on `memmap::MmapMut`'s `Deref` to `[u8]`: a shared view of the
/// mapped bytes in `[at, at + size)`.
#[verifier::external_body]
pub(crate) fn region_read(m: &memmap::MmapMut, at: usize, size: usize) -> (s: &[u8])
    requires
        at + size <= region_bytes(*m).len(),
    ensures
        s@ == region_bytes(*m).subrange(at as int, at + size),
{
    &m[at..at + size]
}

/// Relies on `memmap::MmapMut`'s `DerefMut` to `[u8]` and
/// `<[u8]>::copy_from_slice`: stores `data` at position `at` of the mapped
/// region and changes no other byte.
#[verifier::external_body]
pub(crate) fn region_write(m: &mut memmap::MmapMut, at: usize, data: &[u8])
    requires
        at + data@.len() <= region_bytes(*old(m)).len(),
    ensures
        region_bytes(*final(m)) == splice(region_bytes(*old(m)), at as int, data@),
{
    m[at..at + data.len()].copy_from_slice(data);
}

/// Relies on `memmap::MmapMut::flush_async`: asks the operating system to
/// write the mapped pages back to the file, without waiting for durability.
/// It takes the region by shared reference, so the mapped bytes are unchanged;
/// nothing is promised of the result.
#[verifier::external_body]
pub(crate) fn region_flush_async(m: &memmap::MmapMut) -> (r: Result<(), std::io::Error>) {
    m.flush_async()
}

} // verus!
