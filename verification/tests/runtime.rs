use embedded_alloc::LlffHeap;
use xpui_rp2040::runtime::{heap_used, HEAP_SIZE};

#[test]
fn an_empty_heap_has_handed_out_nothing_and_has_nothing() {
    let heap = LlffHeap::empty();
    assert_eq!(heap_used(&heap), (0, 0));
}

#[test]
fn the_heap_is_sixty_four_kilobytes() {
    assert_eq!(HEAP_SIZE, 64 * 1024);
}
