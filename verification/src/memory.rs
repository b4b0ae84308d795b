//! Alignment arithmetic, allocation layout checks and the search for the
//! largest allocation that succeeds.
use vstd::arithmetic::div_mod::{lemma_fundamental_div_mod, lemma_mod_breakdown, lemma_mod_multiples_basic};
use vstd::arithmetic::power2::{is_pow2, lemma2_to64, lemma2_to64_rest, lemma_pow2_pos, lemma_pow2_unfold, pow2};
use vstd::layout::valid_layout;
use vstd::prelude::*;

verus! {

/// `align_down(size, align)`: the greatest multiple of `align` that is at
/// most `size`; `size` itself when `align` is zero.
pub open spec fn aligned_down(size: int, align: int) -> int {
    if align == 0 {
        size
    } else {
        size - size % align
    }
}

/// Calls `usize::is_power_of_two`, which holds exactly when `x` is `2^k`
/// for some `k`.
#[verifier::external_body]
fn usize_is_power_of_two(x: usize) -> (r: bool)
    ensures
        r == is_pow2(x as int),
{
    x.is_power_of_two()
}

/// The bit pattern of a power of two: one bit set, so it shares no bit with
/// its predecessor.
proof fn lemma_pow2_single_bit(a: usize)
    requires
        is_pow2(a as int),
    ensures
        a != 0,
        a & ((a - 1) as usize) == 0,
    decreases a,
{
    reveal(is_pow2);
    if a == 1 {
        assert(1usize & 0usize == 0) by (bit_vector);
    } else {
        assert(a > 1 && a % 2 == 0 && is_pow2((a / 2) as int));
        let h: usize = a / 2;
        lemma_pow2_single_bit(h);
        let hm: usize = (h - 1) as usize;
        let am: usize = (a - 1) as usize;
        assert(a == 2 * h);
        assert(h != 0 && hm == h - 1 && am == a - 1 && h & hm == 0 && a == 2 * h ==> a & am == 0)
            by (bit_vector);
    }
}

/// For a power of two `a`, the bits of `size` below `a` are `size % a`.
proof fn lemma_low_mask_is_mod(size: usize, a: usize)
    requires
        is_pow2(a as int),
    ensures
        size & ((a - 1) as usize) == size % a,
    decreases a,
{
    reveal(is_pow2);
    if a == 1 {
        assert(size & 0usize == 0) by (bit_vector);
    } else {
        assert(a > 1 && a % 2 == 0 && is_pow2((a / 2) as int));
        let h: usize = a / 2;
        let hm: usize = (h - 1) as usize;
        let am: usize = (a - 1) as usize;
        let half: usize = size / 2;
        lemma_pow2_single_bit(h);
        lemma_low_mask_is_mod(half, h);
        assert(a == 2 * h);
        assert(h != 0 && hm == h - 1 && am == a - 1 && a == 2 * h && half == size / 2
            ==> size & am == 2 * (half & hm) + size % 2) by (bit_vector);
        lemma_mod_breakdown(size as int, 2, h as int);
    }
}

/// Clearing the bits below a power of two `a` rounds down to a multiple of `a`.
proof fn lemma_mask_is_round_down(size: usize, a: usize)
    requires
        is_pow2(a as int),
    ensures
        size & !((a - 1) as usize) == size - size % a,
{
    let m: usize = (a - 1) as usize;
    lemma_low_mask_is_mod(size, a);
    assert(size & !m == size - (size & m)) by (bit_vector);
}

/// Align downwards. Returns the greatest x with alignment `align`
/// so that x <= size. The alignment must be a power of 2, or zero, which
/// leaves `size` unchanged.
pub fn align_down_size(size: usize, align: usize) -> (r: usize)
    requires
        align == 0 || is_pow2(align as int),
    ensures
        r == aligned_down(size as int, align as int),
{
    if usize_is_power_of_two(align) {
        proof {
            lemma_pow2_single_bit(align);
            lemma_mask_is_round_down(size, align);
        }
        size & !(align - 1)
    } else {
        size
    }
}

/// `align_up(size, align)`: what `align_up_size` computes, rounding
/// `size + align - 1` down to a multiple of `align`.
pub open spec fn aligned_up(size: int, align: int) -> int {
    aligned_down(size + align - 1, align)
}

/// Align upwards: the least multiple of the power of two `align` that is at
/// least `size`. The sum `size + align` must fit in a `usize`; with a
/// zero `align` the result is `size - 1`, so `size` must then be positive.
pub fn align_up_size(size: usize, align: usize) -> (r: usize)
    requires
        align == 0 || is_pow2(align as int),
        1 <= size + align <= usize::MAX,
    ensures
        r == aligned_up(size as int, align as int),
{
    align_down_size(size + align - 1, align)
}

/// Rounding down gives the greatest multiple of `align` that is at most
/// `size`: it is a multiple, it is at most `size`, it is less than `align`
/// below `size`, and every multiple of `align` up to `size` is at most it.
pub proof fn lemma_aligned_down_is_greatest_multiple(size: int, align: int)
    requires
        0 <= size,
        0 < align,
    ensures
        aligned_down(size, align) % align == 0,
        0 <= aligned_down(size, align) <= size,
        size - aligned_down(size, align) < align,
        forall|x: int|
            0 <= x <= size && #[trigger] (x % align) == 0 ==> x <= aligned_down(size, align),
{
    let r = size % align;
    let q = size / align;
    lemma_fundamental_div_mod(size, align);
    lemma_mod_multiples_basic(q, align);
    assert(aligned_down(size, align) == align * q);
    assert forall|x: int| 0 <= x <= size && #[trigger] (x % align) == 0 implies x <= align * q by {
        lemma_fundamental_div_mod(x, align);
        let p = x / align;
        assert(x == align * p);
        assert(p <= q) by (nonlinear_arith)
            requires
                x == align * p,
                size == align * q + r,
                0 <= r < align,
                x <= size,
                0 < align,
        {
            if p > q {
                assert(align * p >= align * (q + 1));
            }
        }
        assert(align * p <= align * q) by (nonlinear_arith)
            requires
                p <= q,
                0 < align,
        ;
    }
}

/// Rounding up gives the least multiple of `align` that is at least `size`:
/// it is a multiple, it is at least `size`, it is less than `align` above
/// `size`, and every multiple of `align` from `size` on is at least it.
pub proof fn lemma_aligned_up_is_least_multiple(size: int, align: int)
    requires
        0 <= size,
        0 < align,
    ensures
        aligned_up(size, align) % align == 0,
        size <= aligned_up(size, align) < size + align,
        forall|x: int| x >= size && #[trigger] (x % align) == 0 ==> aligned_up(size, align) <= x,
{
    let n = size + align - 1;
    lemma_aligned_down_is_greatest_multiple(n, align);
    let u = aligned_down(n, align);
    assert(u >= size) by {
        // size rounded up is a multiple of align within [size, n]
        lemma_fundamental_div_mod(size, align);
        let q = size / align;
        let r = size % align;
        if r == 0 {
            assert(size % align == 0);
        } else {
            let c = align * (q + 1);
            lemma_mod_multiples_basic(q + 1, align);
            assert(c == align * q + align) by (nonlinear_arith)
                requires
                    c == align * (q + 1),
            ;
            assert(0 <= c <= n && c % align == 0);
        }
    }
    assert forall|x: int| x >= size && #[trigger] (x % align) == 0 implies u <= x by {
        if x < u {
            // x and u are distinct multiples of align, so they are align apart
            lemma_fundamental_div_mod(x, align);
            lemma_fundamental_div_mod(u, align);
            let p = x / align;
            let v = u / align;
            assert(align * p < align * v);
            assert(p < v) by (nonlinear_arith)
                requires
                    align * p < align * v,
                    0 < align,
            ;
            assert(align * p + align <= align * v) by (nonlinear_arith)
                requires
                    p < v,
                    0 < align,
            ;
        }
    }
}

/// Calls `core::alloc::Layout::from_size_align` and reports whether it gave
/// a layout. Its documentation: the call fails exactly when `align` is not a
/// power of two or `size`, rounded up to a multiple of `align`, exceeds
/// `isize::MAX`; that is vstd's `valid_layout`.
#[verifier::external_body]
fn layout_from_size_align_is_ok(size: usize, align: usize) -> (r: bool)
    ensures
        r == valid_layout(size, align),
{
    core::alloc::Layout::from_size_align(size, align).is_ok()
}

/// Size of a machine word in bytes.
pub open spec fn word_size() -> int {
    usize::BITS as int / 8
}

/// Size of the block that the linked-list heap allocator carves out for a
/// request of `size` bytes: at least two words, rounded up to a multiple of
/// eight.
pub open spec fn linked_list_block_size(size: int) -> int {
    let min_size = 2 * word_size();
    aligned_up(if size < min_size { min_size } else { size }, 8)
}

/// Whether the linked-list heap allocator would panic while computing the
/// layout of the block it carves out for the layout (`size`, `align`).
pub open spec fn linked_list_rejects(size: int, align: usize) -> bool {
    !valid_layout(linked_list_block_size(size) as usize, align)
}

/// Tells whether the heap allocator would panic on the layout (`size`,
/// `align`): the block it carves out (at least two words, rounded up to a
/// multiple of eight) no longer forms a valid layout with `align`.
pub fn check_linked_list_panic(size: usize, align: usize) -> (r: bool)
    requires
        valid_layout(size, align),
    ensures
        r == linked_list_rejects(size as int, align),
{
    broadcast use vstd::layout::layout_of_primitives;

    let min_size: usize = core::mem::size_of::<usize>() * 2;
    let mut block = size;
    if block < min_size {
        block = min_size;
    }
    proof {
        reveal(is_pow2);
        assert(is_pow2(1));
        assert(is_pow2(2));
        assert(is_pow2(4));
        assert(is_pow2(8));
    }
    let block = align_up_size(block, 8);
    !layout_from_size_align_is_ok(block, align)
}

/// The byte layout requested by a plain allocation of `capacity` bytes
/// aligned to `align`, when the allocator is to be asked for it at all.
pub open spec fn allocate_plan(capacity: usize, align: usize) -> Option<(usize, usize)> {
    if valid_layout(capacity, align) && !linked_list_rejects(capacity as int, align) {
        Some((capacity, align))
    } else {
        None
    }
}

/// Decides whether to ask the allocator for `capacity` bytes aligned to
/// `align`: `None` where the layout is invalid or the heap allocator would
/// panic on it, else the layout (size, alignment) to allocate.
pub fn allocate_request(capacity: usize, align: usize) -> (r: Option<(usize, usize)>)
    ensures
        r == allocate_plan(capacity, align),
        r matches Some(layout) ==> layout == (capacity, align),
{
    if !layout_from_size_align_is_ok(capacity, align) {
        return None;
    }
    if check_linked_list_panic(capacity, align) {
        return None;
    }
    Some((capacity, align))
}

/// The element alignments for which a vector allocation can be probed: each
/// element type has its size equal to its alignment.
pub open spec fn probe_alignment(align: usize) -> bool {
    align == 1 || align == 2 || align == 4 || align == 8 || align == 16 || align == 32 || align == 64
}

/// The layout requested by a vector of `capacity` elements whose size and
/// alignment are both `align`, when the allocator is to be asked for it.
pub open spec fn allocate_vec_plan(capacity: usize, align: usize) -> Option<(usize, usize)> {
    let total = capacity * align;
    if total <= usize::MAX && valid_layout(total as usize, align) && !linked_list_rejects(
        total,
        align,
    ) {
        Some((total as usize, align))
    } else {
        None
    }
}

/// Decides whether to ask the allocator for a vector of `capacity` elements
/// whose size and alignment are both `align` (one of 1, 2, 4, 8, 16, 32 or
/// 64): `None` where the array size overflows, the layout is invalid or the
/// heap allocator would panic on it, else the layout (size, alignment).
pub fn allocate_vec_request(capacity: usize, align: usize) -> (r: Option<(usize, usize)>)
    requires
        probe_alignment(align),
    ensures
        r == allocate_vec_plan(capacity, align),
        r matches Some(layout) ==> layout.0 == capacity * align && layout.1 == align,
{
    let total = match capacity.checked_mul(align) {
        Some(total) => total,
        None => return None,
    };
    if !layout_from_size_align_is_ok(total, align) {
        return None;
    }
    if check_linked_list_panic(total, align) {
        return None;
    }
    Some((total, align))
}

/// A valid layout's size is at most `isize::MAX`, and its alignment is a
/// nonzero power of two.
proof fn lemma_valid_layout_bounds(size: usize, align: usize)
    requires
        valid_layout(size, align),
    ensures
        align != 0,
        size <= isize::MAX,
{
    lemma_pow2_single_bit(align);
}

/// The allocator's block for a smaller request is no larger, so where it
/// accepts the block of a request it accepts that of any smaller one.
proof fn lemma_linked_list_accepts_smaller(s: int, t: int, align: usize)
    requires
        0 <= s <= t <= isize::MAX,
        !linked_list_rejects(t, align),
    ensures
        !linked_list_rejects(s, align),
{
    broadcast use vstd::layout::layout_of_primitives;

    let min_size = 2 * word_size();
    assert(word_size() == 4 || word_size() == 8);
    let ms = if s < min_size { min_size } else { s };
    let mt = if t < min_size { min_size } else { t };
    lemma_aligned_up_is_least_multiple(ms, 8);
    lemma_aligned_up_is_least_multiple(mt, 8);
    let bs = aligned_up(ms, 8);
    let bt = aligned_up(mt, 8);
    assert(bs <= bt);
    assert(bt < usize::MAX);
    lemma_valid_layout_bounds(bt as usize, align);
    assert(valid_layout(bs as usize, align));
}

/// A plain allocation request that is passed on to the allocator for
/// `capacity` bytes is also passed on for every smaller capacity with the
/// same alignment.
pub proof fn lemma_allocate_plan_monotone(smaller: usize, capacity: usize, align: usize)
    requires
        smaller <= capacity,
        allocate_plan(capacity, align) is Some,
    ensures
        allocate_plan(smaller, align) is Some,
{
    lemma_valid_layout_bounds(capacity, align);
    lemma_linked_list_accepts_smaller(smaller as int, capacity as int, align);
}

/// A vector allocation request that is passed on to the allocator for
/// `capacity` elements is also passed on for every smaller number of
/// elements with the same alignment.
pub proof fn lemma_allocate_vec_plan_monotone(smaller: usize, capacity: usize, align: usize)
    requires
        smaller <= capacity,
        allocate_vec_plan(capacity, align) is Some,
    ensures
        allocate_vec_plan(smaller, align) is Some,
{
    let total = capacity * align;
    let part = smaller * align;
    assert(part <= total) by (nonlinear_arith)
        requires
            smaller <= capacity,
            part == smaller * align,
            total == capacity * align,
    ;
    assert(0 <= part) by (nonlinear_arith)
        requires
            part == smaller * align,
    ;
    lemma_valid_layout_bounds(total as usize, align);
    lemma_linked_list_accepts_smaller(part, total, align);
}

/// Whether the search of `binary_search` over `lower..=upper` runs to its
/// end without a panic, whatever `check` answers among its possible results:
/// a failed probe at the lower end of the range, or a failed final probe at
/// zero, would step below the range.
pub open spec fn search_completes<F: Fn(usize) -> bool>(check: F, lower: usize, upper: usize) -> bool
    decreases upper - lower,
{
    if lower < upper {
        let mid = ((lower + upper) / 2) as usize;
        &&& (call_ensures(check, (mid,), true) ==> search_completes(check, (mid + 1) as usize, upper))
        &&& (call_ensures(check, (mid,), false) ==> lower < mid && search_completes(
            check,
            lower,
            (mid - 1) as usize,
        ))
    } else {
        &&& lower == upper
        &&& (call_ensures(check, (lower,), false) ==> 0 < lower)
    }
}

/// The most probes the search of `binary_search` makes over
/// `lower..=upper` before its final one, whatever `check` answers: each
/// probe leaves the part of the range above or below it.
pub open spec fn probe_rounds(lower: int, upper: int) -> nat
    decreases upper - lower + 1,
{
    if lower < upper {
        let mid = (lower + upper) / 2;
        let above = probe_rounds(mid + 1, upper);
        let below = probe_rounds(lower, mid - 1);
        1 + if above >= below {
            above
        } else {
            below
        }
    } else {
        0
    }
}

/// A range of at most `2^k` values takes at most `k` probes: each probe
/// leaves at most half of the range.
proof fn lemma_probe_rounds_halving(lower: int, upper: int, k: nat)
    requires
        upper - lower + 1 <= pow2(k),
    ensures
        probe_rounds(lower, upper) <= k,
    decreases k,
{
    if lower < upper {
        if k == 0 {
            assert(pow2(0) == 1) by {
                lemma2_to64();
            }
        } else {
            lemma_pow2_unfold(k);
            let mid = (lower + upper) / 2;
            lemma_probe_rounds_halving(mid + 1, upper, (k - 1) as nat);
            lemma_probe_rounds_halving(lower, mid - 1, (k - 1) as nat);
        }
    }
}

/// Over the whole of `0..=usize::MAX` the search makes at most
/// `usize::BITS` probes before its final one, so it calls `check` at most
/// `usize::BITS + 1` times.
pub proof fn lemma_probe_rounds_bounded()
    ensures
        probe_rounds(0, usize::MAX as int) <= usize::BITS,
{
    lemma2_to64();
    lemma2_to64_rest();
    assert(usize::MAX + 1 == pow2(usize::BITS as nat));
    lemma_probe_rounds_halving(0, usize::MAX as int, usize::BITS as nat);
}

/// Searches `0..=usize::MAX` for a boundary of `check`: returns `r` such that
/// `check(r)` succeeded and, unless `r` is `usize::MAX`, `check(r + 1)`
/// failed. Probes the midpoint (rounded down) of the remaining range,
/// moving above it on success and below it on failure.
pub fn binary_search<F: Fn(usize) -> bool>(check: F) -> (r: usize)
    requires
        forall|n: usize| call_requires(check, (n,)),
        search_completes(check, 0, usize::MAX),
    ensures
        call_ensures(check, (r,), true),
        r < usize::MAX ==> call_ensures(check, ((r + 1) as usize,), false),
{
    let mut lower: usize = 0;
    let mut upper: usize = usize::MAX;
    let ghost mut probes: nat = 0;
    while lower < upper
        invariant
            forall|n: usize| call_requires(check, (n,)),
            search_completes(check, lower, upper),
            probes + probe_rounds(lower as int, upper as int) <= probe_rounds(0, usize::MAX as int),
            0 < lower ==> call_ensures(check, ((lower - 1) as usize,), true),
            upper < usize::MAX ==> call_ensures(check, ((upper + 1) as usize,), false),
        decreases upper - lower,
    {
        let mid = lower + (upper - lower) / 2;
        assert(mid == ((lower + upper) / 2) as usize);
        let ok = check(mid);
        proof {
            probes = probes + 1;
        }
        if ok {
            lower = mid + 1;
        } else {
            upper = mid - 1;
        }
    }
    assert(lower == upper);
    proof {
        lemma_probe_rounds_bounded();
        // at most `usize::BITS` probes in the loop, then the final one
        assert(probes + 1 <= usize::BITS + 1);
    }
    let ok = check(lower);
    if ok {
        lower
    } else {
        lower - 1
    }
}

/// When `check` gives one answer per size and succeeds on every size below
/// one where it succeeds, the boundary that `binary_search` returns is the
/// largest size on which `check` succeeds.
pub proof fn lemma_boundary_is_largest_success<F: Fn(usize) -> bool>(check: F, r: usize)
    requires
        forall|n: usize|
            !(#[trigger] call_ensures(check, (n,), true) && call_ensures(check, (n,), false)),
        forall|a: usize, b: usize|
            a <= b && #[trigger] call_ensures(check, (b,), true) ==> #[trigger] call_ensures(
                check,
                (a,),
                true,
            ),
        call_ensures(check, (r,), true),
        r < usize::MAX ==> call_ensures(check, ((r + 1) as usize,), false),
    ensures
        forall|n: usize| #[trigger] call_ensures(check, (n,), true) <==> n <= r,
{
    assert forall|n: usize| #[trigger] call_ensures(check, (n,), true) <==> n <= r by {
        if n <= r {
            assert(call_ensures(check, (r,), true));
        } else {
            let s = (r + 1) as usize;
            if call_ensures(check, (n,), true) {
                assert(call_ensures(check, (s,), true));
                assert(call_ensures(check, (s,), false));
            }
        }
    }
}

/// On a range whose length is one less than a power of two, each probe
/// falls strictly inside the range and halves it into two such ranges, so
/// only a failed final probe at zero can step below it.
proof fn lemma_search_completes_on_full_range<F: Fn(usize) -> bool>(
    check: F,
    lower: usize,
    upper: usize,
    j: nat,
)
    requires
        1 <= j,
        upper - lower + 1 == pow2(j) - 1,
        lower > 0 || forall|r: bool| #[trigger] call_ensures(check, (0usize,), r) ==> r,
    ensures
        search_completes(check, lower, upper),
    decreases j,
{
    lemma_pow2_unfold(j);
    if j == 1 {
        assert(pow2(0) == 1) by {
            lemma2_to64();
        }
        assert(lower == upper);
    } else {
        let h = pow2((j - 1) as nat);
        lemma_pow2_unfold((j - 1) as nat);
        lemma_pow2_pos((j - 2) as nat);
        assert(h >= 2);
        let mid = ((lower + upper) / 2) as usize;
        assert(mid == lower + h - 1);
        lemma_search_completes_on_full_range(check, (mid + 1) as usize, upper, (j - 1) as nat);
        lemma_search_completes_on_full_range(check, lower, (mid - 1) as usize, (j - 1) as nat);
    }
}

/// The search of `binary_search` runs to its end whenever `check(0)` can
/// only succeed and its first probe, at `usize::MAX / 2`, can only fail (as
/// when `check` tries an allocation of that many bytes): the remaining range
/// is then one less than a power of two long, every later probe falls
/// strictly inside it, and only a failed final probe at zero could step
/// below it.
pub proof fn lemma_search_completes_when_zero_succeeds<F: Fn(usize) -> bool>(check: F)
    requires
        forall|r: bool| #[trigger] call_ensures(check, (0usize,), r) ==> r,
        forall|r: bool| #[trigger] call_ensures(check, ((usize::MAX / 2) as usize,), r) ==> !r,
    ensures
        search_completes(check, 0, usize::MAX),
{
    lemma2_to64();
    lemma2_to64_rest();
    let mid = (usize::MAX / 2) as usize;
    assert(mid == ((0 + usize::MAX) / 2) as usize);
    if usize::BITS == 32 {
        assert(usize::MAX == 0xffff_ffff);
        assert(mid + 1 == pow2(31));
    } else {
        assert(usize::MAX == 0xffff_ffff_ffff_ffff);
        assert(mid + 1 == pow2(63));
    }
    lemma_search_completes_on_full_range(check, 0, (mid - 1) as usize, (usize::BITS - 1) as nat);
}

/// `check` answers whether its argument is at most `limit`, and nothing
/// else.
pub open spec fn is_threshold<F: Fn(usize) -> bool>(check: F, limit: usize) -> bool {
    forall|n: usize, r: bool| #[trigger] call_ensures(check, (n,), r) ==> r == (n <= limit)
}

/// On a range that ends at `usize::MAX` and is a power of two long, reached
/// by successful probes only, a threshold search runs to its end unless the
/// limit is `usize::MAX - 2`: then the probe at `usize::MAX - 1` fails at the
/// lower end of the range `usize::MAX - 1..=usize::MAX`.
proof fn lemma_threshold_search_on_top_range<F: Fn(usize) -> bool>(
    check: F,
    limit: usize,
    lower: usize,
    j: nat,
)
    requires
        is_threshold(check, limit),
        limit != usize::MAX - 2,
        1 <= j,
        usize::MAX - lower + 1 == pow2(j),
        lower <= limit + 1,
    ensures
        search_completes(check, lower, usize::MAX),
    decreases j,
{
    lemma_pow2_unfold(j);
    assert forall|r: bool| #[trigger] call_ensures(check, (0usize,), r) implies r by {}
    if j == 1 {
        assert(pow2(0) == 1) by {
            lemma2_to64();
        }
        assert(search_completes(check, usize::MAX, usize::MAX));
    } else {
        let h = pow2((j - 1) as nat);
        lemma_pow2_unfold((j - 1) as nat);
        lemma_pow2_pos((j - 2) as nat);
        let mid = ((lower + usize::MAX) / 2) as usize;
        assert(mid == lower + h - 1);
        if call_ensures(check, (mid,), true) {
            lemma_threshold_search_on_top_range(check, limit, (mid + 1) as usize, (j - 1) as nat);
        }
        lemma_search_completes_on_full_range(check, lower, (mid - 1) as usize, (j - 1) as nat);
    }
}

/// The search of `binary_search` runs to its end for every threshold check
/// `n <= limit` but one: with `limit == usize::MAX - 2` it probes
/// `usize::MAX - 1` as the lower end of its last two values and fails there.
pub proof fn lemma_search_completes_for_threshold<F: Fn(usize) -> bool>(check: F, limit: usize)
    requires
        is_threshold(check, limit),
        limit != usize::MAX - 2,
    ensures
        search_completes(check, 0, usize::MAX),
{
    lemma2_to64();
    lemma2_to64_rest();
    assert(usize::MAX + 1 == pow2(usize::BITS as nat));
    lemma_threshold_search_on_top_range(check, limit, 0, usize::BITS as nat);
}

/// A request that is passed on to the allocator keeps what was asked for:
/// a plain request the size and alignment given, a vector request the size
/// of all its elements and their alignment; and it is passed on only as a
/// valid layout that the heap allocator accepts.
pub proof fn lemma_requests_keep_the_asked_layout(capacity: usize, align: usize)
    ensures
        allocate_plan(capacity, align) is Some ==> allocate_plan(capacity, align) == Some(
            (capacity, align),
        ),
        allocate_plan(capacity, align) is Some ==> valid_layout(capacity, align)
            && !linked_list_rejects(capacity as int, align),
        allocate_vec_plan(capacity, align) matches Some(layout) ==> layout.0 == capacity * align
            && layout.1 == align && valid_layout(layout.0, align) && !linked_list_rejects(
            layout.0 as int,
            align,
        ),
{
}

} // verus!
