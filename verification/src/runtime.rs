//! The heap, as far as the firmware reads it.
//!
//! The allocator itself, the panic handler and the wait-for-interrupt loop
//! live with the binary; what is here is the one view either board has of
//! its own memory.

use vstd::prelude::*;

use embedded_alloc::LlffHeap;

verus! {

/// How much of the RP2040's 256 kB of striped SRAM the heap gets: the leaked
/// backend with the Badger's 4,736-byte framebuffer, the stack of live
/// screens and the view tree rebuilt every frame.
pub const HEAP_SIZE: usize = 65536;

/// The first-fit allocator the firmware installs.
#[verifier::external_type_specification]
#[verifier::external_body]
pub struct ExLlffHeap(LlffHeap);

/// `embedded_alloc::LlffHeap::used`: the bytes the allocator has handed out.
/// It reads the allocator's state, which every allocation changes, so
/// nothing is stated of the number.
#[verifier::external_body]
fn allocator_used(heap: &LlffHeap) -> usize {
    heap.used()
}

/// `embedded_alloc::LlffHeap::free`: the bytes the allocator has left. It
/// reads the allocator's state, which every allocation changes, so nothing
/// is stated of the number.
#[verifier::external_body]
fn allocator_free(heap: &LlffHeap) -> usize {
    heap.free()
}

/// What `heap` has handed out and what is left, in bytes, in that order.
pub fn heap_used(heap: &LlffHeap) -> (usage: (usize, usize)) {
    let used = allocator_used(heap);
    let free = allocator_free(heap);
    (used, free)
}

} // verus!
