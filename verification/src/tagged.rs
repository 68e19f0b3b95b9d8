//! Tagged pointers handed back by Roc.
//!
//! Roc stores the tag of a union value in the three low bits of a pointer
//! to 8-byte aligned, reference-counted memory. The refcount word sits in
//! the 8 bytes just below the untagged address.

use vstd::prelude::*;

verus! {

/// The low bits of a pointer that hold the tag.
pub const TAG_MASK: usize = 7;

/// Size in bytes of the refcount word stored below a Roc allocation.
pub const REFCOUNT_BYTES: usize = 8;

/// Size of the payload that some continuations carry in front of their
/// closure data: a boxed future (the two words of a trait object) or the
/// arguments of a host request.
pub const PAYLOAD_BYTES: usize = 16;

/// The tag a Roc pointer carries: its three low bits.
pub open spec fn tag_of(ptr: usize) -> nat {
    (ptr % 8) as nat
}

/// The address a Roc pointer points at once the tag is cleared.
pub open spec fn address_of(ptr: usize) -> int {
    ptr - ptr % 8
}

/// Reads the tag from a tagged pointer.
pub fn get_tag(ptr: usize) -> (tag: u8)
    ensures
        tag == tag_of(ptr),
        tag < 8,
{
    let low: u8 = ptr as u8;
    assert((ptr as u8) & 7u8 == ptr % 8) by (bit_vector);
    low & 0x07
}

/// Clears the tag bits of a tagged pointer.
pub fn remove_tag(ptr: usize) -> (addr: usize)
    ensures
        addr == address_of(ptr),
        addr % 8 == 0,
{
    assert(ptr & !7usize == ptr - ptr % 8) by (bit_vector);
    ptr & !TAG_MASK
}

/// The address of the refcount word of the allocation a tagged pointer
/// points into: the untagged address minus the refcount's size.
/// This is the address that has to be released to free the allocation.
pub fn refcount_address(ptr: usize) -> (addr: usize)
    requires
        address_of(ptr) >= REFCOUNT_BYTES,
    ensures
        addr == address_of(ptr) - REFCOUNT_BYTES,
        addr % 8 == 0,
{
    remove_tag(ptr) - REFCOUNT_BYTES
}

/// The closure data of a continuation that starts with a payload: it sits
/// right behind the payload's two words, with the tag cleared.
pub fn payload_closure_address(ptr: usize) -> (addr: usize)
    requires
        ptr + PAYLOAD_BYTES <= usize::MAX,
    ensures
        addr == address_of(ptr) + PAYLOAD_BYTES,
        addr % 8 == 0,
{
    remove_tag(ptr + PAYLOAD_BYTES)
}

/// A tagged pointer is its untagged address plus its tag; the untagged
/// address is 8-byte aligned and the tag is below 8.
pub proof fn lemma_tag_and_address_recompose(ptr: usize)
    ensures
        address_of(ptr) + tag_of(ptr) == ptr,
        address_of(ptr) % 8 == 0,
        0 <= address_of(ptr) <= ptr,
        tag_of(ptr) < 8,
{
}

/// Clearing the tag twice clears it once: an untagged address carries tag 0
/// and is its own address.
pub proof fn lemma_untagged_is_fixed(ptr: usize)
    ensures
        tag_of(address_of(ptr) as usize) == 0,
        address_of(address_of(ptr) as usize) == address_of(ptr),
{
}

/// Tagging an aligned address with a tag below 8 is undone by reading the
/// tag and clearing it: both parts come back unchanged.
pub proof fn lemma_tagging_round_trip(addr: usize, tag: usize)
    requires
        addr % 8 == 0,
        tag < 8,
    ensures
        addr + tag <= usize::MAX,
        tag_of((addr + tag) as usize) == tag,
        address_of((addr + tag) as usize) == addr,
{
}

} // verus!
