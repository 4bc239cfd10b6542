use rand::rngs::StdRng;
use rand::{Rng, SeedableRng};
use sysguard::memory_randomizer::{
    page_floor, perturb, LayoutError, MemoryRandomizer, HEAP_MAX, HEAP_MIN, MMAP_MAX, MMAP_MIN,
    PAGE_SIZE, REGENERATION_MASK, STACK_MAX, STACK_MIN, VDSO_MAX, VDSO_MIN,
};

fn randomizer(seed: u64) -> MemoryRandomizer {
    MemoryRandomizer::new(StdRng::seed_from_u64(seed))
}

fn layout_hash(seed: [u8; 16], pid: u32, now_nanos: u128) -> [u8; 32] {
    let mut preimage = Vec::new();
    preimage.extend_from_slice(&seed);
    preimage.extend_from_slice(&pid.to_ne_bytes());
    preimage.extend_from_slice(&now_nanos.to_ne_bytes());
    let digest = ring::digest::digest(&ring::digest::SHA256, &preimage);
    let mut hash = [0u8; 32];
    hash.copy_from_slice(digest.as_ref());
    hash
}

#[test]
fn first_layout_lies_in_its_regions() {
    for seed in 0..50 {
        let mut randomizer = randomizer(seed);
        let layout = randomizer.randomize_for_pid(4321, 1_700_000_000_000_000_000);
        assert_eq!(layout.pid, 4321);
        assert_eq!(layout.regeneration_count, 0);
        assert_eq!(layout.stack_base % PAGE_SIZE, 0);
        assert_eq!(layout.heap_base % PAGE_SIZE, 0);
        assert_eq!(layout.mmap_base % PAGE_SIZE, 0);
        assert!(STACK_MIN <= layout.stack_base && layout.stack_base < STACK_MAX);
        assert!(HEAP_MIN <= layout.heap_base && layout.heap_base < HEAP_MAX);
        assert!(MMAP_MIN <= layout.mmap_base && layout.mmap_base < MMAP_MAX);
        assert!(VDSO_MIN <= layout.vdso_offset && layout.vdso_offset < VDSO_MAX);
        assert_eq!(randomizer.apply_layout_to_process(4321), Ok(layout));
    }
}

#[test]
fn first_layout_follows_the_generator() {
    let mut randomizer = randomizer(99);
    let layout = randomizer.randomize_for_pid(12, 555);
    let mut mirror = StdRng::seed_from_u64(99);
    let stack: u64 = mirror.gen_range(0x7000_0000u64..0x7FFF_FFFFu64);
    let heap: u64 = mirror.gen_range(0x1000_0000u64..0x1FFF_FFFFu64);
    let mmap: u64 = mirror.gen_range(0x2000_0000u64..0x2FFF_FFFFu64);
    let vdso: u64 = mirror.gen_range(0x1000u64..0xFFFFu64);
    let seed: [u8; 16] = mirror.gen();
    assert_eq!(layout.stack_base, stack & !0xFFF);
    assert_eq!(layout.heap_base, heap & !0xFFF);
    assert_eq!(layout.mmap_base, mmap & !0xFFF);
    assert_eq!(layout.vdso_offset, vdso);
    assert_eq!(layout.layout_hash, layout_hash(seed, 12, 555));
}

#[test]
fn regeneration_moves_the_low_bits_and_counts() {
    let mut randomizer = randomizer(5);
    let first = randomizer.randomize_for_pid(8, 1);
    let mut previous = first;
    for round in 1..=20u32 {
        let next = randomizer.regenerate_layout(8, round as u128);
        assert_eq!(next.pid, 8);
        assert_eq!(next.regeneration_count, round);
        assert!(next.stack_base ^ previous.stack_base <= REGENERATION_MASK);
        assert!(next.heap_base ^ previous.heap_base <= REGENERATION_MASK);
        assert!(next.mmap_base ^ previous.mmap_base <= REGENERATION_MASK);
        assert!(VDSO_MIN <= next.vdso_offset && next.vdso_offset < VDSO_MAX);
        assert_eq!(randomizer.apply_layout_to_process(8), Ok(next));
        previous = next;
    }
    assert_ne!(previous.layout_hash, first.layout_hash);
}

#[test]
fn regeneration_follows_the_generator() {
    let mut randomizer = randomizer(3);
    let first = randomizer.randomize_for_pid(2, 10);
    let next = randomizer.regenerate_layout(2, 20);
    let mut mirror = StdRng::seed_from_u64(3);
    let _: u64 = mirror.gen_range(0x7000_0000u64..0x7FFF_FFFFu64);
    let _: u64 = mirror.gen_range(0x1000_0000u64..0x1FFF_FFFFu64);
    let _: u64 = mirror.gen_range(0x2000_0000u64..0x2FFF_FFFFu64);
    let _: u64 = mirror.gen_range(0x1000u64..0xFFFFu64);
    let _: [u8; 16] = mirror.gen();
    let stack = first.stack_base ^ (mirror.gen::<u64>() & 0xFFFF_FFFF);
    let heap = first.heap_base ^ (mirror.gen::<u64>() & 0xFFFF_FFFF);
    let mmap = first.mmap_base ^ (mirror.gen::<u64>() & 0xFFFF_FFFF);
    let vdso: u64 = mirror.gen_range(0x1000u64..0xFFFFu64);
    let seed: [u8; 16] = mirror.gen();
    assert_eq!(next.stack_base, stack);
    assert_eq!(next.heap_base, heap);
    assert_eq!(next.mmap_base, mmap);
    assert_eq!(next.vdso_offset, vdso);
    assert_eq!(next.layout_hash, layout_hash(seed, 2, 20));
    assert_eq!(next.regeneration_count, 1);
}

#[test]
fn regeneration_of_an_unknown_process_draws_a_first_layout() {
    let mut randomizer = randomizer(1);
    let layout = randomizer.regenerate_layout(31, 0);
    assert_eq!(layout.pid, 31);
    assert_eq!(layout.regeneration_count, 0);
    assert_eq!(layout.stack_base % PAGE_SIZE, 0);
    assert_eq!(randomizer.apply_layout_to_process(31), Ok(layout));
}

#[test]
fn new_layout_replaces_the_old_one() {
    let mut randomizer = randomizer(2);
    randomizer.randomize_for_pid(6, 0);
    randomizer.regenerate_layout(6, 1);
    let again = randomizer.randomize_for_pid(6, 2);
    assert_eq!(again.regeneration_count, 0);
    assert_eq!(randomizer.apply_layout_to_process(6), Ok(again));
}

#[test]
fn process_without_layout_has_none_to_apply() {
    let mut randomizer = randomizer(2);
    assert_eq!(randomizer.apply_layout_to_process(1), Err(LayoutError::NoLayout { pid: 1 }));
    randomizer.randomize_for_pid(1, 0);
    assert!(randomizer.apply_layout_to_process(1).is_ok());
    assert_eq!(randomizer.apply_layout_to_process(2), Err(LayoutError::NoLayout { pid: 2 }));
}

#[test]
fn random_address_is_a_page_start() {
    let mut randomizer = randomizer(11);
    for _ in 0..200 {
        let address = randomizer.generate_random_address(0x5000, 0x9001);
        assert_eq!(address % PAGE_SIZE, 0);
        assert!((0x5000..=0x9000).contains(&address));
    }
    for _ in 0..50 {
        assert_eq!(randomizer.generate_random_address(0x1234, 0x1235), 0x1000);
    }
}

#[test]
fn layout_hash_differs_from_draw_to_draw() {
    let mut randomizer = randomizer(4);
    let one = randomizer.generate_layout_hash(1, 1);
    let two = randomizer.generate_layout_hash(1, 1);
    assert_ne!(one, two);
    let mut mirror = StdRng::seed_from_u64(4);
    let seed: [u8; 16] = mirror.gen();
    assert_eq!(one, layout_hash(seed, 1, 1));
}

#[test]
fn page_floor_clears_the_offset() {
    assert_eq!(page_floor(0), 0);
    assert_eq!(page_floor(0xFFF), 0);
    assert_eq!(page_floor(0x1000), 0x1000);
    assert_eq!(page_floor(0x7123_4567), 0x7123_4000);
    assert_eq!(page_floor(u64::MAX), u64::MAX - 0xFFF);
}

#[test]
fn perturb_flips_masked_bits_only() {
    assert_eq!(perturb(0x7000_0000, 0), 0x7000_0000);
    assert_eq!(perturb(0x7000_0000, u64::MAX), 0x8FFF_FFFF);
    assert_eq!(perturb(0xAAAA_0000_0000_1234, 0xFFFF_FFFF_0000_00FF), 0xAAAA_0000_0000_12CB);
    assert_eq!(perturb(5, 0xFFFF_FFFF_0000_0000), 5);
}
