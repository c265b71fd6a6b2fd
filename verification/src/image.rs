//! The memory image of a library: an anonymous mapping made by `memmap2`.

use vstd::prelude::*;

verus! {

/// `memmap2::MmapMut`, a mapping that can be written to. What it holds is
/// known only through the functions below.
#[verifier::external_type_specification]
#[verifier::external_body]
pub struct ExMmapMut(memmap2::MmapMut);

/// The bytes that a mapping holds, first byte first.
pub uninterp spec fn mapped_bytes(mapping: memmap2::MmapMut) -> Seq<u8>;

/// `length` zero bytes.
pub open spec fn zeroes(length: nat) -> Seq<u8> {
    Seq::new(length, |i: int| 0u8)
}

/// `bytes` with `data` written over it from `offset` on.
pub open spec fn overwritten(bytes: Seq<u8>, offset: int, data: Seq<u8>) -> Seq<u8> {
    Seq::new(
        bytes.len(),
        |i: int|
            if offset <= i < offset + data.len() {
                data[i - offset]
            } else {
                bytes[i]
            },
    )
}

/// Calls `memmap2::MmapMut::map_anon`. The operating system decides whether
/// the mapping is made; one that is made has the length asked for, and, being
/// anonymous and private, starts out as zeroes.
#[verifier::external_body]
pub(crate) fn map_anonymous(length: usize) -> (mapping: Option<memmap2::MmapMut>)
    ensures
        mapping matches Some(m) ==> mapped_bytes(m) == zeroes(length as nat),
{
    memmap2::MmapMut::map_anon(length).ok()
}

/// The length of a mapping, read through its `Deref` to a byte slice.
#[verifier::external_body]
pub(crate) fn mapped_length(mapping: &memmap2::MmapMut) -> (length: usize)
    ensures
        length == mapped_bytes(*mapping).len(),
{
    mapping.len()
}

/// The address at which a mapping starts, read through its `Deref` to a byte
/// slice. Nothing is claimed of the address.
#[verifier::external_body]
pub(crate) fn mapped_address(mapping: &memmap2::MmapMut) -> (address: usize) {
    mapping.as_ptr() as usize
}

/// Reads one byte of a mapping through its `Deref` to a byte slice.
#[verifier::external_body]
pub(crate) fn mapped_byte(mapping: &memmap2::MmapMut, index: usize) -> (byte: u8)
    requires
        index < mapped_bytes(*mapping).len(),
    ensures
        byte == mapped_bytes(*mapping)[index as int],
{
    mapping[index]
}

/// Copies `data` into a mapping from `offset` on, through its `DerefMut` to a
/// byte slice. The bytes outside the range keep their values, and so does the
/// length. With the range inside the mapping the copy cannot panic.
#[verifier::external_body]
pub(crate) fn write_mapped(mapping: &mut memmap2::MmapMut, offset: usize, data: &[u8])
    requires
        offset + data@.len() <= mapped_bytes(*old(mapping)).len(),
    ensures
        mapped_bytes(*final(mapping)) == overwritten(
            mapped_bytes(*old(mapping)),
            offset as int,
            data@,
        ),
    no_unwind
{
    mapping[offset..offset + data.len()].copy_from_slice(data);
}

/// Writing within an image keeps its length, and changes no byte outside the
/// range written.
pub proof fn lemma_overwritten_frame(image: Seq<u8>, offset: int, data: Seq<u8>)
    requires
        0 <= offset,
        offset + data.len() <= image.len(),
    ensures
        overwritten(image, offset, data).len() == image.len(),
        overwritten(image, offset, data).subrange(offset, offset + data.len()) == data,
        forall|i: int|
            0 <= i < image.len() && !(offset <= i < offset + data.len()) ==> overwritten(
                image,
                offset,
                data,
            )[i] == image[i],
{
}

} // verus!
