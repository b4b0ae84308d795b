use ireplay::memory::{
    align_down_size, align_up_size, allocate_request, allocate_vec_request, binary_search,
    check_linked_list_panic,
};

#[test]
fn align_down_rounds_to_multiple() {
    assert_eq!(align_down_size(13, 8), 8);
    assert_eq!(align_down_size(16, 8), 16);
    assert_eq!(align_down_size(0, 4), 0);
    assert_eq!(align_down_size(7, 1), 7);
    assert_eq!(align_down_size(4095, 4096), 0);
    assert_eq!(align_down_size(usize::MAX, 1 << 4), usize::MAX - 15);
}

#[test]
fn align_down_with_zero_alignment_keeps_size() {
    assert_eq!(align_down_size(13, 0), 13);
    assert_eq!(align_down_size(usize::MAX, 0), usize::MAX);
}

#[test]
fn align_up_rounds_to_multiple() {
    assert_eq!(align_up_size(13, 8), 16);
    assert_eq!(align_up_size(16, 8), 16);
    assert_eq!(align_up_size(17, 16), 32);
    assert_eq!(align_up_size(1, 1), 1);
    assert_eq!(align_up_size(0, 8), 0);
}

#[test]
fn align_up_with_zero_alignment_is_one_less() {
    assert_eq!(align_up_size(5, 0), 4);
}

#[test]
fn align_results_are_greatest_and_least_multiples() {
    for size in 0usize..200 {
        for shift in 0..6 {
            let align = 1usize << shift;
            let down = align_down_size(size, align);
            assert_eq!(down % align, 0);
            assert!(down <= size && size - down < align);
            let up = align_up_size(size, align);
            assert_eq!(up % align, 0);
            assert!(up >= size && up - size < align);
        }
    }
}

#[test]
fn linked_list_check_flags_blocks_that_overflow() {
    let max = isize::MAX as usize;
    assert!(check_linked_list_panic(max, 1));
    assert!(!check_linked_list_panic(max - 7, 8));
    assert!(!check_linked_list_panic(0, 1));
    assert!(!check_linked_list_panic(100, 64));
}

#[test]
fn plain_allocation_requests() {
    assert_eq!(allocate_request(100, 4), Some((100, 4)));
    assert_eq!(allocate_request(0, 1), Some((0, 1)));
    assert_eq!(allocate_request(100, 3), None);
    assert_eq!(allocate_request(100, 0), None);
    assert_eq!(allocate_request(isize::MAX as usize, 1), None);
    assert_eq!(allocate_request(isize::MAX as usize + 1, 1), None);
}

#[test]
fn vector_allocation_requests() {
    assert_eq!(allocate_vec_request(10, 16), Some((160, 16)));
    assert_eq!(allocate_vec_request(1000, 1), Some((1000, 1)));
    assert_eq!(allocate_vec_request(0, 64), Some((0, 64)));
    assert_eq!(allocate_vec_request(usize::MAX, 2), None);
    assert_eq!(allocate_vec_request(isize::MAX as usize / 64 + 1, 64), None);
}

#[test]
fn binary_search_finds_largest_success() {
    assert_eq!(binary_search(|n| n <= 100_000), 100_000);
    assert_eq!(binary_search(|n| n <= 72 * 1024), 72 * 1024);
    assert_eq!(binary_search(|n| n == 0), 0);
    assert_eq!(binary_search(|_| true), usize::MAX);
}

#[test]
fn binary_search_returns_a_boundary() {
    assert_eq!(binary_search(|n| n % 2 == 0), 0);
    let r = binary_search(|n| n % 3 == 0);
    assert_eq!(r % 3, 0);
    assert_ne!((r + 1) % 3, 0);
}

#[test]
fn binary_search_over_allocation_plans() {
    // the largest vector of 8-byte elements whose layout the allocator accepts
    let r = binary_search(|n| allocate_vec_request(n, 8).is_some());
    assert!(allocate_vec_request(r, 8).is_some());
    assert!(allocate_vec_request(r + 1, 8).is_none());
}

#[test]
fn accepted_requests_stay_accepted_when_smaller() {
    for align in [1usize, 2, 4, 8, 16, 32, 64] {
        let largest = (isize::MAX as usize - 64) / align;
        assert!(allocate_vec_request(largest, align).is_some());
        for smaller in [0, 1, 1000, largest / 2, largest - 1] {
            assert!(allocate_vec_request(smaller, align).is_some());
        }
    }
    assert!(allocate_request(1 << 40, 16).is_some());
    for smaller in [0usize, 3, 1 << 20, (1 << 40) - 1] {
        assert!(allocate_request(smaller, 16).is_some());
    }
}

#[test]
fn binary_search_handles_limits_near_the_top() {
    for limit in [usize::MAX, usize::MAX - 1, usize::MAX - 3, usize::MAX / 2, usize::MAX / 2 - 1] {
        assert_eq!(binary_search(|n| n <= limit), limit);
    }
}

#[test]
fn binary_search_calls_check_at_most_bits_plus_one_times() {
    for limit in [0usize, 1, 1000, 72 * 1024, usize::MAX / 3, usize::MAX] {
        let calls = core::cell::Cell::new(0u32);
        let r = binary_search(|n| {
            calls.set(calls.get() + 1);
            n <= limit
        });
        assert_eq!(r, limit);
        assert!(calls.get() <= usize::BITS + 1);
    }
}
