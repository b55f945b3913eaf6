//! Splitting a file into fragments whose sizes are powers of two.
use vstd::prelude::*;

verus! {

/// The smallest fragment the vault ever cuts.
pub const MIN_FRAGMENT_SIZE: u64 = 4096;

/// `n` is a (positive) power of two.
pub open spec fn is_power_of_two(n: int) -> bool
    decreases n,
{
    if n <= 0 {
        false
    } else if n == 1 {
        true
    } else {
        n % 2 == 0 && is_power_of_two(n / 2)
    }
}

/// The largest power of two that is not above `n` (zero when `n` is not positive).
pub open spec fn largest_power_of_two_le(n: int) -> int
    decreases n,
{
    if n <= 0 {
        0
    } else if n == 1 {
        1
    } else {
        2 * largest_power_of_two_le(n / 2)
    }
}

pub proof fn lemma_double_power_of_two(x: int)
    requires
        is_power_of_two(x),
    ensures
        is_power_of_two(2 * x),
{
    assert((2 * x) / 2 == x);
}

/// Two distinct powers of two are at least a factor of two apart.
pub proof fn lemma_power_of_two_gap(p: int, q: int)
    requires
        is_power_of_two(p),
        is_power_of_two(q),
        p < q,
    ensures
        2 * p <= q,
    decreases q,
{
    if p == 1 {
    } else {
        lemma_power_of_two_gap(p / 2, q / 2);
    }
}

pub proof fn lemma_largest_power_of_two_le(n: int)
    requires
        n >= 1,
    ensures
        is_power_of_two(largest_power_of_two_le(n)),
        largest_power_of_two_le(n) <= n < 2 * largest_power_of_two_le(n),
    decreases n,
{
    if n > 1 {
        lemma_largest_power_of_two_le(n / 2);
        lemma_double_power_of_two(largest_power_of_two_le(n / 2));
    }
}

/// A power of two `p` with `p <= n < 2 * p` is the largest one not above `n`.
pub proof fn lemma_largest_power_of_two_unique(n: int, p: int)
    requires
        is_power_of_two(p),
        p <= n < 2 * p,
    ensures
        largest_power_of_two_le(n) == p,
{
    let r = largest_power_of_two_le(n);
    lemma_largest_power_of_two_le(n);
    if p < r {
        lemma_power_of_two_gap(p, r);
    } else if r < p {
        lemma_power_of_two_gap(r, p);
    }
}

/// Every power of two not above `n` is at most the largest one.
pub proof fn lemma_largest_power_of_two_bounds(n: int, p: int)
    requires
        is_power_of_two(p),
        p <= n,
    ensures
        p <= largest_power_of_two_le(n),
{
    let r = largest_power_of_two_le(n);
    lemma_largest_power_of_two_le(n);
    if r < p {
        lemma_power_of_two_gap(r, p);
    }
}

pub proof fn lemma_largest_power_of_two_monotone(a: int, b: int)
    requires
        1 <= a <= b,
    ensures
        largest_power_of_two_le(a) <= largest_power_of_two_le(b),
{
    lemma_largest_power_of_two_le(a);
    lemma_largest_power_of_two_bounds(b, largest_power_of_two_le(a));
}

proof fn lemma_min_fragment_is_power_of_two()
    ensures
        is_power_of_two(MIN_FRAGMENT_SIZE as int),
{
    reveal_with_fuel(is_power_of_two, 13);
}

/// The bit test `n & (n - 1) == 0` recognizes exactly the powers of two.
proof fn lemma_bit_test_power_of_two(n: u64)
    ensures
        (n > 0 && n & ((n - 1) as u64) == 0) == is_power_of_two(n as int),
    decreases n,
{
    if n == 0 {
    } else if n == 1 {
        assert(1u64 & 0u64 == 0) by (bit_vector);
    } else if n % 2 == 1 {
        assert(n % 2 == 1 && n > 1 ==> n & ((n - 1) as u64) != 0) by (bit_vector);
    } else {
        let m: u64 = n / 2;
        lemma_bit_test_power_of_two(m);
        assert(n % 2 == 0 && n > 1 && m == n / 2 ==> ((n & ((n - 1) as u64)) == 0) == ((m & ((m - 1) as u64)) == 0))
            by (bit_vector);
    }
}

} // verus!

verus! {

/// The size of the fragment cut from the front of `remaining` bytes.
pub open spec fn fragment_size_for(remaining: int) -> int {
    if largest_power_of_two_le(remaining) > MIN_FRAGMENT_SIZE {
        largest_power_of_two_le(remaining)
    } else {
        MIN_FRAGMENT_SIZE as int
    }
}

/// The sizes of the fragments of a file of `target` bytes: greedily the largest power of two
/// not above what is left, but never less than `MIN_FRAGMENT_SIZE`.
pub open spec fn spec_fragment_sizes(target: nat) -> Seq<u64>
    decreases target,
{
    if target == 0 {
        seq![]
    } else {
        let s = fragment_size_for(target as int);
        let rest: nat = if target > s {
            (target - s) as nat
        } else {
            0
        };
        seq![s as u64] + spec_fragment_sizes(rest)
    }
}

/// Sum of a sequence of sizes.
pub open spec fn sum_sizes(s: Seq<u64>) -> int
    decreases s.len(),
{
    if s.len() == 0 {
        0
    } else {
        s[0] + sum_sizes(s.subrange(1, s.len() as int))
    }
}

/// A file of `size` bytes can be cut into fragments: its size lies below the limit.
pub open spec fn fragmentable(size: u64) -> bool {
    size < FRAGMENT_SIZE_LIMIT
}

/// Files of this many bytes or more cannot be cut into fragments.
pub const FRAGMENT_SIZE_LIMIT: u64 = 0x4000_0000_0000_0000;

impl crate::vault::Vault {
    /// Tests whether `number` is a power of two.
    pub fn is_power_of_2(number: u64) -> (r: bool)
        ensures
            r == is_power_of_two(number as int),
    {
        proof {
            lemma_bit_test_power_of_two(number);
        }
        number > 0 && ((number) & (number - 1)) == 0
    }

    /// The largest power of two not above `limit`, or zero when `limit` is zero.
    pub fn power_2_upto(limit: u64) -> (r: u64)
        requires
            fragmentable(limit),
        ensures
            r == largest_power_of_two_le(limit as int),
    {
        if limit == 0 {
            return 0;
        }
        let mut p: u64 = 1;
        while p <= limit / 2
            invariant
                1 <= limit < 0x4000_0000_0000_0000,
                1 <= p <= limit,
                is_power_of_two(p as int),
            decreases limit - p,
        {
            proof {
                lemma_double_power_of_two(p as int);
            }
            p = p * 2;
        }
        proof {
            lemma_largest_power_of_two_unique(limit as int, p as int);
        }
        p
    }

    /// Walks down the powers of two from `start` and returns the last one that is still above
    /// half of `limit`: the largest power of two not above `limit` (zero for a zero `limit`).
    pub fn power_2_desc_from_power_2(start: u64, limit: u64) -> (r: u64)
        requires
            is_power_of_two(start as int),
            limit == 0 || start > limit / 2 || start == limit,
        ensures
            r == largest_power_of_two_le(limit as int),
    {
        if limit == 0 {
            return 0;
        }
        let mut x: u64 = start;
        while x / 2 > limit / 2 || x / 2 == limit
            invariant
                limit >= 1,
                is_power_of_two(x as int),
                x > limit / 2,
            decreases x,
        {
            x = x / 2;
        }
        proof {
            if x >= 2 {
                assert(x % 2 == 0);
            }
            lemma_largest_power_of_two_unique(limit as int, x as int);
        }
        x
    }

    /// The sizes of the fragments a file of `target` bytes is cut into.
    pub fn fragment_sizes(target: u64) -> (sizes: Vec<u64>)
        requires
            fragmentable(target),
        ensures
            sizes@ == spec_fragment_sizes(target as nat),
    {
        let mut fragment_sizes: Vec<u64> = Vec::new();
        let upto = Self::power_2_upto(target);
        let mut current_size: u64 = if MIN_FRAGMENT_SIZE >= upto {
            MIN_FRAGMENT_SIZE
        } else {
            upto
        };
        let mut current_target: u64 = target;
        proof {
            lemma_min_fragment_is_power_of_two();
            if target >= 1 {
                lemma_largest_power_of_two_le(target as int);
            }
            assert(fragment_sizes@ + spec_fragment_sizes(current_target as nat) =~= spec_fragment_sizes(
                target as nat,
            ));
        }
        while current_target != 0
            invariant
                current_target <= target,
                fragmentable(target),
                is_power_of_two(current_size as int),
                current_target == 0 || 2 * current_size > current_target,
                fragment_sizes@ + spec_fragment_sizes(current_target as nat) == spec_fragment_sizes(
                    target as nat,
                ),
            decreases current_target,
        {
            let p = Self::power_2_desc_from_power_2(current_size, current_target);
            current_size = if MIN_FRAGMENT_SIZE >= p {
                MIN_FRAGMENT_SIZE
            } else {
                p
            };
            let ghost old_sizes = fragment_sizes@;
            let ghost old_target = current_target;
            fragment_sizes.push(current_size);
            current_target = current_target.saturating_sub(current_size);
            proof {
                lemma_min_fragment_is_power_of_two();
                lemma_largest_power_of_two_le(old_target as int);
                assert(current_size as int == fragment_size_for(old_target as int));
                assert(spec_fragment_sizes(old_target as nat) == seq![current_size] + spec_fragment_sizes(
                    current_target as nat,
                ));
                assert(fragment_sizes@ + spec_fragment_sizes(current_target as nat) =~= old_sizes
                    + spec_fragment_sizes(old_target as nat));
            }
        }
        proof {
            assert(fragment_sizes@ =~= fragment_sizes@ + spec_fragment_sizes(0));
        }
        fragment_sizes
    }
}

} // verus!

verus! {

pub proof fn lemma_sum_sizes_cons(a: u64, r: Seq<u64>)
    ensures
        sum_sizes(seq![a] + r) == a + sum_sizes(r),
{
    assert((seq![a] + r).subrange(1, (seq![a] + r).len() as int) =~= r);
}

/// The ways `spec_fragment_sizes` unfolds, made explicit.
proof fn lemma_fragment_sizes_unfold(t: nat)
    requires
        0 < t < 0x4000_0000_0000_0000,
    ensures
        fragment_size_for(t as int) >= MIN_FRAGMENT_SIZE,
        is_power_of_two(fragment_size_for(t as int)),
        fragment_size_for(t as int) <= t + MIN_FRAGMENT_SIZE,
        spec_fragment_sizes(t) == seq![fragment_size_for(t as int) as u64] + spec_fragment_sizes(
            (if t > fragment_size_for(t as int) {
                t - fragment_size_for(t as int)
            } else {
                0
            }) as nat,
        ),
{
    lemma_largest_power_of_two_le(t as int);
    lemma_min_fragment_is_power_of_two();
}

proof fn lemma_fragment_size_for_monotone(a: int, b: int)
    requires
        1 <= a <= b,
    ensures
        fragment_size_for(a) <= fragment_size_for(b),
{
    lemma_largest_power_of_two_monotone(a, b);
}

/// No fragment is bigger than the first one that `remaining` bytes give.
proof fn lemma_fragment_sizes_bounded(t: nat)
    requires
        t < 0x4000_0000_0000_0000,
    ensures
        forall|i: int|
            0 <= i < spec_fragment_sizes(t).len() ==> spec_fragment_sizes(t)[i] <= fragment_size_for(
                t as int,
            ),
    decreases t,
{
    if t > 0 {
        lemma_fragment_sizes_unfold(t);
        lemma_largest_power_of_two_le(t as int);
        let s = fragment_size_for(t as int);
        let rest: nat = (if t > s {
            t - s
        } else {
            0
        }) as nat;
        lemma_fragment_sizes_bounded(rest);
        if rest > 0 {
            lemma_fragment_size_for_monotone(rest as int, t as int);
        }
    }
}

/// The fragments of a file: each is a power of two of at least `MIN_FRAGMENT_SIZE` bytes, they
/// never grow from one to the next, together they cover the whole file, and the last one is
/// needed to cover it (the others alone fall short of the file's size). An empty file has no
/// fragment.
pub proof fn lemma_fragment_sizes_laws(target: u64)
    requires
        fragmentable(target),
    ensures
        (spec_fragment_sizes(target as nat).len() == 0) == (target == 0),
        forall|i: int|
            0 <= i < spec_fragment_sizes(target as nat).len() ==> {
                &&& is_power_of_two(#[trigger] spec_fragment_sizes(target as nat)[i] as int)
                &&& spec_fragment_sizes(target as nat)[i] >= MIN_FRAGMENT_SIZE
            },
        forall|i: int, j: int|
            0 <= i <= j < spec_fragment_sizes(target as nat).len() ==> spec_fragment_sizes(
                target as nat,
            )[i] >= spec_fragment_sizes(target as nat)[j],
        sum_sizes(spec_fragment_sizes(target as nat)) >= target,
        target > 0 ==> sum_sizes(spec_fragment_sizes(target as nat).drop_last()) < target,
    decreases target,
{
    let t = target as nat;
    if t > 0 {
        lemma_fragment_sizes_unfold(t);
        lemma_largest_power_of_two_le(t as int);
        let s = fragment_size_for(t as int);
        let rest_n: nat = (if t > s {
            t - s
        } else {
            0
        }) as nat;
        let rest = rest_n as u64;
        lemma_fragment_sizes_laws(rest);
        lemma_fragment_sizes_bounded(rest_n);
        if rest_n > 0 {
            lemma_fragment_size_for_monotone(rest_n as int, t as int);
        }
        let r = spec_fragment_sizes(rest_n);
        let all = spec_fragment_sizes(t);
        assert(all == seq![s as u64] + r);
        lemma_sum_sizes_cons(s as u64, r);
        assert forall|i: int| 0 <= i < all.len() implies {
            &&& is_power_of_two(#[trigger] all[i] as int)
            &&& all[i] >= MIN_FRAGMENT_SIZE
        } by {
            if i > 0 {
                assert(all[i] == r[i - 1]);
            }
        }
        assert forall|i: int, j: int| 0 <= i <= j < all.len() implies all[i] >= all[j] by {
            if i > 0 {
                assert(all[i] == r[i - 1]);
                assert(all[j] == r[j - 1]);
            } else if j > 0 {
                assert(all[j] == r[j - 1]);
            }
        }
        if rest_n > 0 {
            assert(all.drop_last() =~= seq![s as u64] + r.drop_last());
            lemma_sum_sizes_cons(s as u64, r.drop_last());
        } else {
            assert(all.drop_last() =~= Seq::<u64>::empty());
        }
    }
}

impl crate::vault::Vault {
    /// Where each fragment of a file of `file_size` bytes starts, and how many bytes it takes:
    /// the fragments follow one another from offset zero, with the sizes of `fragment_sizes`.
    pub fn fragment_plan(file_size: u64) -> (plan: Vec<(u64, u64)>)
        requires
            fragmentable(file_size),
        ensures
            plan.len() == spec_fragment_sizes(file_size as nat).len(),
            forall|i: int|
                0 <= i < plan.len() ==> {
                    &&& (#[trigger] plan[i]).1 == spec_fragment_sizes(file_size as nat)[i]
                    &&& plan[i].0 == sum_sizes(spec_fragment_sizes(file_size as nat).take(i))
                },
            plan.len() > 0 ==> plan[0].0 == 0,
            forall|i: int|
                0 <= i < plan.len() - 1 ==> #[trigger] plan[i + 1].0 == plan[i].0 + plan[i].1,
            plan.len() > 0 ==> plan[plan.len() - 1].0 < file_size <= plan[plan.len() - 1].0 + plan[
                plan.len() - 1].1,
            (plan.len() == 0) == (file_size == 0),
    {
        let sizes = Self::fragment_sizes(file_size);
        let mut plan: Vec<(u64, u64)> = Vec::new();
        let mut current_pos: u64 = 0;
        let mut i: usize = 0;
        proof {
            lemma_fragment_sizes_laws(file_size);
        }
        while i < sizes.len()
            invariant
                i <= sizes.len(),
                sizes@ == spec_fragment_sizes(file_size as nat),
                fragmentable(file_size),
                sum_sizes(sizes@) >= file_size,
                file_size > 0 ==> sum_sizes(sizes@.drop_last()) < file_size,
                sizes@.len() == 0 <==> file_size == 0,
                plan.len() == i,
                i < sizes.len() ==> current_pos == sum_sizes(sizes@.take(i as int)),
                forall|k: int|
                    0 <= k < i ==> {
                        &&& (#[trigger] plan[k]).1 == sizes@[k]
                        &&& plan[k].0 == sum_sizes(sizes@.take(k))
                    },
            decreases sizes.len() - i,
        {
            let size = sizes[i];
            plan.push((current_pos, size));
            proof {
                lemma_sum_take_step(sizes@, i as int);
                lemma_sum_take_le(sizes@, i as int);
            }
            if i + 1 < sizes.len() {
                current_pos = current_pos + size;
            }
            i = i + 1;
        }
        proof {
            let n = sizes@.len() as int;
            if n > 0 {
                assert(sizes@.take(0) =~= Seq::<u64>::empty());
                assert forall|k: int| 0 <= k < plan.len() - 1 implies #[trigger] plan[k + 1].0
                    == plan[k].0 + plan[k].1 by {
                    lemma_sum_take_step(sizes@, k);
                }
                assert(sizes@.take(n - 1) =~= sizes@.drop_last());
                lemma_sum_take_step(sizes@, n - 1);
                assert(sizes@.take(n) =~= sizes@);
            }
        }
        plan
    }
}

/// Summing one more element of a prefix.
pub proof fn lemma_sum_take_step(s: Seq<u64>, i: int)
    requires
        0 <= i < s.len(),
    ensures
        sum_sizes(s.take(i + 1)) == sum_sizes(s.take(i)) + s[i],
    decreases i,
{
    if i == 0 {
        assert(s.take(1).subrange(1, 1) =~= Seq::<u64>::empty());
        assert(s.take(0) =~= Seq::<u64>::empty());
    } else {
        let t = s.subrange(1, s.len() as int);
        lemma_sum_take_step(t, i - 1);
        assert(s.take(i + 1).subrange(1, i + 1) =~= t.take(i));
        assert(s.take(i).subrange(1, i) =~= t.take(i - 1));
    }
}

/// A prefix sums to no more than a longer prefix.
pub proof fn lemma_sum_take_le(s: Seq<u64>, i: int)
    requires
        0 <= i < s.len(),
    ensures
        sum_sizes(s.take(i + 1)) <= sum_sizes(s.drop_last()) || i + 1 == s.len(),
        i + 1 < s.len() ==> sum_sizes(s.take(i + 1)) <= sum_sizes(s.drop_last()),
    decreases s.len() - i,
{
    if i + 1 < s.len() {
        if i + 2 < s.len() {
            lemma_sum_take_le(s, i + 1);
            lemma_sum_take_step(s, i + 1);
        } else {
            assert(s.take(i + 1) =~= s.drop_last());
        }
    }
}

} // verus!

verus! {

/// The bytes of the fragments, one after the other.
pub open spec fn concat(s: Seq<Vec<u8>>) -> Seq<u8>
    decreases s.len(),
{
    if s.len() == 0 {
        seq![]
    } else {
        concat(s.drop_last()) + s.last()@
    }
}

/// The bytes of `content` from `start` to `end`.
pub fn copy_range(content: &[u8], start: usize, end: usize) -> (r: Vec<u8>)
    requires
        start <= end <= content@.len(),
    ensures
        r@ == content@.subrange(start as int, end as int),
{
    let mut out: Vec<u8> = Vec::new();
    let mut i: usize = start;
    while i < end
        invariant
            start <= i <= end,
            end <= content@.len(),
            out@ == content@.subrange(start as int, i as int),
        decreases end - i,
    {
        out.push(content[i]);
        i = i + 1;
        proof {
            assert(out@ =~= content@.subrange(start as int, i as int));
        }
    }
    out
}

impl crate::vault::Vault {
    /// Cuts `content` into fragments of the sizes of `fragment_sizes`: every fragment but the
    /// last is full, and the fragments, put back one after the other, are the content.
    pub fn fragment_bytes(content: &[u8]) -> (r: Vec<Vec<u8>>)
        requires
            content@.len() < FRAGMENT_SIZE_LIMIT,
        ensures
            r@.len() == spec_fragment_sizes(content@.len()).len(),
            forall|i: int|
                0 <= i < r@.len() - 1 ==> #[trigger] r@[i]@.len() == spec_fragment_sizes(
                    content@.len(),
                )[i],
            r@.len() > 0 ==> r@.last()@.len() <= spec_fragment_sizes(content@.len()).last(),
            concat(r@) == content@,
    {
        let n = content.len();
        let plan = Self::fragment_plan(n as u64);
        let ghost sizes = spec_fragment_sizes(n as nat);
        let mut out: Vec<Vec<u8>> = Vec::new();
        let mut i: usize = 0;
        while i < plan.len()
            invariant
                n == content@.len(),
                n < FRAGMENT_SIZE_LIMIT,
                sizes == spec_fragment_sizes(n as nat),
                plan@.len() == sizes.len(),
                forall|k: int|
                    0 <= k < plan@.len() ==> {
                        &&& (#[trigger] plan@[k]).1 == sizes[k]
                        &&& plan@[k].0 == sum_sizes(sizes.take(k))
                    },
                plan@.len() > 0 ==> plan@[plan@.len() - 1].0 < n <= plan@[plan@.len() - 1].0
                    + plan@[plan@.len() - 1].1,
                (plan@.len() == 0) == (n == 0),
                i <= plan@.len(),
                out@.len() == i,
                forall|k: int| 0 <= k < i && k < plan@.len() - 1 ==> #[trigger] out@[k]@.len() == sizes[k],
                i < plan@.len() ==> concat(out@) == content@.subrange(0, plan@[i as int].0 as int),
                i == plan@.len() && i > 0 ==> concat(out@) == content@ && out@.last()@.len()
                    <= sizes.last(),
            decreases plan.len() - i,
        {
            let start = plan[i].0;
            let size = plan[i].1;
            let last = i + 1 == plan.len();
            proof {
                if !last {
                    lemma_sum_take_le(sizes, i as int);
                    lemma_sum_take_step(sizes, i as int);
                    assert(sizes.take(sizes.len() - 1) =~= sizes.drop_last());
                    assert(plan@[i + 1].0 == sum_sizes(sizes.take(i + 1)));
                    assert(start + size <= plan@[plan@.len() - 1].0);
                }
            }
            let end: usize = if last {
                n
            } else {
                (start + size) as usize
            };
            let frag = copy_range(content, start as usize, end);
            let ghost before = out@;
            out.push(frag);
            proof {
                assert(out@.drop_last() =~= before);
                assert(concat(out@) == concat(before) + frag@);
                assert(content@.subrange(0, start as int) + content@.subrange(start as int, end as int)
                    =~= content@.subrange(0, end as int));
                if !last {
                    lemma_sum_take_step(sizes, i as int);
                    assert(plan@[i + 1].0 == start + size);
                } else {
                    assert(content@.subrange(0, n as int) =~= content@);
                }
            }
            i = i + 1;
        }
        proof {
            if n == 0 {
                assert(content@ =~= Seq::<u8>::empty());
            }
        }
        out
    }
}

} // verus!
