//! Small numeric helpers shared by the plotting code.

use vstd::prelude::*;
use vstd::std_specs::cmp::PartialEqSpec;
use vstd::std_specs::cmp::PartialOrdSpec;
use core::cmp::Ordering;

verus! {

/// The `PartialEq`/`PartialOrd` implementations of `T` are faithfully
/// described by their specifications and behave as a total order whose
/// `Equal` outcome coincides with equality. Integer types satisfy all of
/// this; floating-point types do not (their comparison specifications are
/// left open), so contracts guarded by this predicate say nothing about
/// them.
pub open spec fn total_order_obeyed<T: PartialOrd>() -> bool {
    &&& T::obeys_eq_spec()
    &&& T::obeys_partial_cmp_spec()
    &&& vstd::laws_cmp::obeys_partial_cmp_spec_properties::<T>()
    &&& forall|x: T, y: T| #[trigger] x.partial_cmp_spec(&y) is Some
    &&& forall|x: T, y: T| #[trigger] x.partial_cmp_spec(&y) == Some(Ordering::Equal) ==> x == y
}

/// Finds the minimum value of a vector, or `default` if no element compares
/// equal to itself (in particular, if the vector is empty).
///
/// Elements that do not compare equal to themselves (floating-point NaN) are
/// ignored.
pub fn min_always<T: PartialOrd + Copy>(v: &Vec<T>, default: T) -> (r: T)
    ensures
        total_order_obeyed::<T>() ==> {
            if exists|i: int| 0 <= i < v@.len() && #[trigger] v@[i].eq_spec(&v@[i]) {
                &&& exists|i: int|
                    0 <= i < v@.len() && r == v@[i] && #[trigger] v@[i].eq_spec(&v@[i])
                &&& forall|i: int|
                    0 <= i < v@.len() && #[trigger] v@[i].eq_spec(&v@[i])
                        ==> v@[i].partial_cmp_spec(&r) != Some(Ordering::Less)
            } else {
                r == default
            }
        },
{
    let mut best: T = default;
    let mut found: bool = false;
    let mut i: usize = 0;
    while i < v.len()
        invariant
            i <= v@.len(),
            total_order_obeyed::<T>() ==> {
                if found {
                    &&& exists|j: int|
                        0 <= j < i && best == v@[j] && #[trigger] v@[j].eq_spec(&v@[j])
                    &&& forall|j: int|
                        0 <= j < i && #[trigger] v@[j].eq_spec(&v@[j])
                            ==> v@[j].partial_cmp_spec(&best) != Some(Ordering::Less)
                } else {
                    &&& best == default
                    &&& forall|j: int| 0 <= j < i ==> !(#[trigger] v@[j].eq_spec(&v@[j]))
                }
            },
        decreases v@.len() - i,
    {
        let x: T = v[i];
        let ghost prev_best = best;
        let ghost prev_found = found;
        let kept = x.eq(&x);
        if kept {
            if !found {
                best = x;
                found = true;
            } else if best.gt(&x) {
                best = x;
            }
        }
        proof {
            if total_order_obeyed::<T>() {
                reveal(vstd::laws_cmp::obeys_partial_cmp_spec_properties);
                if found {
                    assert forall|j: int|
                        0 <= j <= i && #[trigger] v@[j].eq_spec(&v@[j]) implies v@[j].partial_cmp_spec(
                        &best,
                    ) != Some(Ordering::Less) by {
                        if j < i && prev_found {
                            if best != prev_best {
                                if v@[j].partial_cmp_spec(&best) == Some(Ordering::Less) {
                                    assert(v@[j].partial_cmp_spec(&prev_best) == Some(
                                        Ordering::Less,
                                    ));
                                }
                            }
                        }
                    }
                }
            }
        }
        i = i + 1;
    }
    best
}

/// Finds the maximum value of a vector, or `default` if no element compares
/// equal to itself (in particular, if the vector is empty).
///
/// Elements that do not compare equal to themselves (floating-point NaN) are
/// ignored. Of several equally maximal elements the last one is kept.
pub fn max_always<T: PartialOrd + Copy>(v: &Vec<T>, default: T) -> (r: T)
    ensures
        total_order_obeyed::<T>() ==> {
            if exists|i: int| 0 <= i < v@.len() && #[trigger] v@[i].eq_spec(&v@[i]) {
                &&& exists|i: int|
                    0 <= i < v@.len() && r == v@[i] && #[trigger] v@[i].eq_spec(&v@[i])
                &&& forall|i: int|
                    0 <= i < v@.len() && #[trigger] v@[i].eq_spec(&v@[i])
                        ==> v@[i].partial_cmp_spec(&r) != Some(Ordering::Greater)
            } else {
                r == default
            }
        },
{
    let mut best: T = default;
    let mut found: bool = false;
    let mut i: usize = 0;
    while i < v.len()
        invariant
            i <= v@.len(),
            total_order_obeyed::<T>() ==> {
                if found {
                    &&& exists|j: int|
                        0 <= j < i && best == v@[j] && #[trigger] v@[j].eq_spec(&v@[j])
                    &&& forall|j: int|
                        0 <= j < i && #[trigger] v@[j].eq_spec(&v@[j])
                            ==> v@[j].partial_cmp_spec(&best) != Some(Ordering::Greater)
                } else {
                    &&& best == default
                    &&& forall|j: int| 0 <= j < i ==> !(#[trigger] v@[j].eq_spec(&v@[j]))
                }
            },
        decreases v@.len() - i,
    {
        let x: T = v[i];
        let ghost prev_best = best;
        let ghost prev_found = found;
        let kept = x.eq(&x);
        if kept {
            if !found {
                best = x;
                found = true;
            } else if !best.gt(&x) {
                best = x;
            }
        }
        proof {
            if total_order_obeyed::<T>() {
                reveal(vstd::laws_cmp::obeys_partial_cmp_spec_properties);
                if found {
                    assert forall|j: int|
                        0 <= j <= i && #[trigger] v@[j].eq_spec(&v@[j]) implies v@[j].partial_cmp_spec(
                        &best,
                    ) != Some(Ordering::Greater) by {
                        if j < i && prev_found && best != prev_best {
                            if v@[j].partial_cmp_spec(&best) == Some(Ordering::Greater) {
                                assert(prev_best.partial_cmp_spec(&best) is Some);
                                assert(prev_best.partial_cmp_spec(&best) != Some(Ordering::Greater));
                                if prev_best.partial_cmp_spec(&best) == Some(Ordering::Less) {
                                    assert(best.partial_cmp_spec(&prev_best) == Some(
                                        Ordering::Greater,
                                    ));
                                    assert(v@[j].partial_cmp_spec(&prev_best) == Some(
                                        Ordering::Greater,
                                    ));
                                } else {
                                    assert(prev_best.partial_cmp_spec(&best) == Some(
                                        Ordering::Equal,
                                    ));
                                    assert(prev_best == best);
                                }
                            }
                        }
                    }
                }
            }
        }
        i = i + 1;
    }
    best
}

/// Numerical wrapper type for values that are expected to compare equal to
/// themselves (in particular, no floating-point NaN), so that ordered
/// comparisons between wrapped values behave like a total order.
///
/// Whether the wrapped value meets that expectation cannot be checked here
/// for every type; a caller who wraps a value that does not compare equal
/// to itself gets the partial comparisons of the underlying type back.
#[derive(Debug, Clone, Copy)]
pub struct NonNanWrapper<T: PartialOrd + Copy> {
    num: T,
}

impl<T: PartialOrd + Copy> NonNanWrapper<T> {
    /// The wrapped value.
    pub closed spec fn spec_value(&self) -> T {
        self.num
    }

    /// Returns the wrapped value.
    pub fn value(&self) -> (r: T)
        ensures
            r == self.spec_value(),
    {
        self.num
    }

    /// Wraps a value. The value should compare equal to itself.
    pub fn from(value: T) -> (r: Self)
        ensures
            r.spec_value() == value,
    {
        NonNanWrapper { num: value }
    }
}

impl<T: PartialOrd + Copy> PartialEq for NonNanWrapper<T> {
    fn eq(&self, other: &Self) -> (r: bool) {
        self.num.eq(&other.num)
    }
}

impl<T: PartialOrd + Copy> vstd::std_specs::cmp::PartialEqSpecImpl for NonNanWrapper<T> {
    open spec fn obeys_eq_spec() -> bool {
        T::obeys_eq_spec()
    }

    open spec fn eq_spec(&self, other: &Self) -> bool {
        self.spec_value().eq_spec(&other.spec_value())
    }
}

impl<T: PartialOrd + Copy> Eq for NonNanWrapper<T> {

}

impl<T: PartialOrd + Copy> PartialOrd for NonNanWrapper<T> {
    fn partial_cmp(&self, other: &Self) -> (r: Option<Ordering>) {
        self.num.partial_cmp(&other.num)
    }
}

impl<T: PartialOrd + Copy> vstd::std_specs::cmp::PartialOrdSpecImpl for NonNanWrapper<T> {
    open spec fn obeys_partial_cmp_spec() -> bool {
        T::obeys_partial_cmp_spec()
    }

    open spec fn partial_cmp_spec(&self, other: &Self) -> Option<Ordering> {
        self.spec_value().partial_cmp_spec(&other.spec_value())
    }
}

/// The integer encoded by a little-endian sequence of bits:
/// bit `i` contributes `2^i`.
pub open spec fn bits_value(bits: Seq<bool>) -> nat
    decreases bits.len(),
{
    if bits.len() == 0 {
        0
    } else {
        bits_value(bits.drop_last()) + (if bits.last() {
            pow2((bits.len() - 1) as nat)
        } else {
            0
        })
    }
}

/// `2^e` as a natural number.
pub open spec fn pow2(e: nat) -> nat
    decreases e,
{
    if e == 0 {
        1
    } else {
        2 * pow2((e - 1) as nat)
    }
}

/// Converts a vector of bits into a `u8`, least significant bit first.
///
/// The vector's length must not exceed 8.
pub fn bin_to_u8(bin: Vec<bool>) -> (r: u8)
    requires
        bin@.len() <= 8,
    ensures
        r == bits_value(bin@),
        r < pow2(bin@.len()),
{
    proof {
        lemma_bits_value_bound(bin@);
    }
    let mut acc: u8 = 0;
    let mut i: usize = 0;
    while i < bin.len()
        invariant
            i <= bin@.len(),
            bin@.len() <= 8,
            acc == bits_value(bin@.take(i as int)),
            bits_value(bin@) <= 255,
        decreases bin@.len() - i,
    {
        proof {
            lemma_bits_value_monotonic(bin@, i + 1);
            assert(bin@.take(i + 1).drop_last() =~= bin@.take(i as int));
            lemma_pow2_bounds();
        }
        if bin[i] {
            let bit: u8 = 1u8 << (i as u8);
            assert(bit == pow2(i as nat)) by {
                lemma_shift_is_pow2(i as nat);
            }
            acc = acc + bit;
        }
        i = i + 1;
    }
    proof {
        assert(bin@.take(bin@.len() as int) =~= bin@);
    }
    acc
}

proof fn lemma_pow2_bounds()
    ensures
        pow2(0) == 1,
        pow2(1) == 2,
        pow2(2) == 4,
        pow2(3) == 8,
        pow2(4) == 16,
        pow2(5) == 32,
        pow2(6) == 64,
        pow2(7) == 128,
        pow2(8) == 256,
{
    reveal_with_fuel(pow2, 9);
}

proof fn lemma_shift_is_pow2(i: nat)
    requires
        i < 8,
    ensures
        (1u8 << (i as u8)) == pow2(i),
{
    lemma_pow2_bounds();
    assert((1u8 << 0u8) == 1) by (bit_vector);
    assert((1u8 << 1u8) == 2) by (bit_vector);
    assert((1u8 << 2u8) == 4) by (bit_vector);
    assert((1u8 << 3u8) == 8) by (bit_vector);
    assert((1u8 << 4u8) == 16) by (bit_vector);
    assert((1u8 << 5u8) == 32) by (bit_vector);
    assert((1u8 << 6u8) == 64) by (bit_vector);
    assert((1u8 << 7u8) == 128) by (bit_vector);
}

/// A prefix of the bits encodes no more than the whole sequence.
proof fn lemma_bits_value_monotonic(bits: Seq<bool>, n: int)
    requires
        0 <= n <= bits.len(),
    ensures
        bits_value(bits.take(n)) <= bits_value(bits),
    decreases bits.len(),
{
    if n < bits.len() {
        assert(bits.drop_last().take(n) =~= bits.take(n));
        lemma_bits_value_monotonic(bits.drop_last(), n);
    } else {
        assert(bits.take(n) =~= bits);
    }
}

/// Eight bits encode at most 255.
proof fn lemma_bits_value_bound(bits: Seq<bool>)
    requires
        bits.len() <= 8,
    ensures
        bits_value(bits) < pow2(bits.len()),
        bits_value(bits) <= 255,
    decreases bits.len(),
{
    lemma_pow2_bounds();
    if bits.len() > 0 {
        lemma_bits_value_bound(bits.drop_last());
        lemma_pow2_monotonic((bits.len() - 1) as nat, 7);
    }
}

proof fn lemma_pow2_monotonic(a: nat, b: nat)
    requires
        a <= b,
    ensures
        pow2(a) <= pow2(b),
    decreases b,
{
    if a < b {
        lemma_pow2_monotonic(a, (b - 1) as nat);
    }
}

/// `num / den` rounded to the nearest integer, ties away from zero.
/// The denominator must be positive.
pub open spec fn round_div(num: int, den: int) -> int {
    if num >= 0 {
        (2 * num + den) / (2 * den)
    } else {
        -((2 * (-num) + den) / (2 * den))
    }
}

/// The `i`-th of `n` evenly spaced samples of `[low, high]`, rounded to the
/// nearest integer (ties away from zero): `round(low + i * (high - low) / (n - 1))`.
pub open spec fn subdivide_sample(low: int, high: int, n: int, i: int) -> int {
    round_div(low * (n - 1) + i * (high - low), n - 1)
}

/// Subdivides an inclusive interval into `n` equally-spaced integers:
/// sample `i` is `low + i * (high - low) / (n - 1)` rounded to the nearest
/// integer, ties away from zero.
///
/// Returns an empty vector if `n` is zero. A single sample has no defined
/// spacing, so for `n == 1` the result is pinned to `[0]`. Every returned
/// sample lies between `low` and `high` (inclusive) when `n >= 2`.
pub fn subdivide_round(low: i32, high: i32, n: u32) -> (r: Vec<i32>)
    ensures
        r@.len() == n,
        n == 1 ==> r@[0] == 0,
        n >= 2 ==> forall|i: int|
            0 <= i < n ==> #[trigger] r@[i] == subdivide_sample(low as int, high as int, n as int, i),
        n >= 2 ==> forall|i: int|
            0 <= i < n ==> (if low <= high {
                low <= #[trigger] r@[i] <= high
            } else {
                high <= r@[i] <= low
            }),
{
    let mut r: Vec<i32> = Vec::new();
    if n == 0 {
        return r;
    }
    if n == 1 {
        r.push(0i32);
        return r;
    }
    let q: i128 = (n - 1) as i128;
    let d: i128 = high as i128 - low as i128;
    let mut i: u32 = 0;
    while i < n
        invariant
            i <= n,
            n >= 2,
            q == n - 1,
            d == high - low,
            r@.len() == i,
            forall|j: int|
                0 <= j < i ==> #[trigger] r@[j] == subdivide_sample(
                    low as int,
                    high as int,
                    n as int,
                    j,
                ),
            forall|j: int|
                0 <= j < i ==> (if low <= high {
                    low <= #[trigger] r@[j] <= high
                } else {
                    high <= r@[j] <= low
                }),
        decreases n - i,
    {
        proof {
            assert(low as i128 * q <= 0x8000_0000_0000_0000 && low as i128 * q
                >= -0x8000_0000_0000_0000 && i as i128 * d <= 0x1_0000_0000_0000_0000 && i as i128
                * d >= -0x1_0000_0000_0000_0000) by (nonlinear_arith)
                requires
                    -0x8000_0000 <= low as i128 <= 0x7fff_ffff,
                    1 <= q <= 0xffff_ffff,
                    -0xffff_ffff <= d <= 0xffff_ffff,
                    0 <= (i as i128) <= q,
            ;
        }
        let total: i128 = low as i128 * q + i as i128 * d;
        proof {
            lemma_sample_bounds(low as int, high as int, q as int, i as int);
            lemma_round_div_bound(total as int, q as int, low as int, high as int);
        }
        let neg: bool = total < 0;
        let ta: u128 = if neg {
            (-total) as u128
        } else {
            total as u128
        };
        let rabs: u128 = (2 * ta + q as u128) / (2 * q as u128);
        let v: i32 = if neg {
            proof {
                assert(round_div(total as int, q as int) == -(rabs as int));
                assert(rabs <= 0x8000_0000);
            }
            (-(rabs as i64)) as i32
        } else {
            proof {
                assert(round_div(total as int, q as int) == rabs as int);
                assert(rabs <= 0x7fff_ffff);
            }
            rabs as i32
        };
        assert(v == subdivide_sample(low as int, high as int, n as int, i as int));
        r.push(v);
        i = i + 1;
    }
    r
}

/// The numerator of sample `i` stays within the interval scaled by `q`.
proof fn lemma_sample_bounds(low: int, high: int, q: int, i: int)
    requires
        q >= 1,
        0 <= i <= q,
    ensures
        low * q + i * (high - low) >= q * (if low <= high {
            low
        } else {
            high
        }),
        low * q + i * (high - low) <= q * (if low <= high {
            high
        } else {
            low
        }),
{
    let d = high - low;
    if d >= 0 {
        assert(0 <= i * d <= q * d) by (nonlinear_arith)
            requires
                0 <= i <= q,
                d >= 0,
        ;
    } else {
        assert(q * d <= i * d <= 0) by (nonlinear_arith)
            requires
                0 <= i <= q,
                d < 0,
        ;
    }
    assert(low * q + q * d == q * high) by (nonlinear_arith)
        requires
            d == high - low,
    ;
    assert(low * q == q * low) by (nonlinear_arith);
}

/// Rounding a value that lies between `q * low` and `q * high` (for positive
/// `q`) lands between `low` and `high`.
proof fn lemma_round_div_bound(total: int, q: int, low: int, high: int)
    requires
        q >= 1,
        total >= q * (if low <= high {
            low
        } else {
            high
        }),
        total <= q * (if low <= high {
            high
        } else {
            low
        }),
    ensures
        round_div(total, q) >= (if low <= high {
            low
        } else {
            high
        }),
        round_div(total, q) <= (if low <= high {
            high
        } else {
            low
        }),
{
    let lo = if low <= high {
        low
    } else {
        high
    };
    let hi = if low <= high {
        high
    } else {
        low
    };
    if total >= 0 {
        let v = (2 * total + q) / (2 * q);
        assert(lo <= v <= hi) by (nonlinear_arith)
            requires
                q >= 1,
                q * lo <= total <= q * hi,
                total >= 0,
                v == (2 * total + q) / (2 * q),
        ;
    } else {
        let v = -((2 * (-total) + q) / (2 * q));
        assert(lo <= v <= hi) by (nonlinear_arith)
            requires
                q >= 1,
                q * lo <= total <= q * hi,
                total < 0,
                v == -((2 * (-total) + q) / (2 * q)),
        ;
    }
}

/// Integer ceiling division: the least `q` with `a <= q * b`.
///
/// The divisor must be positive, and `a + b` must not overflow.
pub fn ciel_div(a: u32, b: u32) -> (r: u32)
    requires
        b > 0,
        a + b <= u32::MAX,
    ensures
        r == (a + b - 1) as int / b as int,
        r * b >= a,
        a > 0 ==> (r - 1) * b < a,
{
    let r = (a + b - 1) / b;
    proof {
        let q = (a + b - 1) as int / b as int;
        let m = b as int;
        let rem = (a + b - 1) as int % m;
        vstd::arithmetic::div_mod::lemma_fundamental_div_mod((a + b - 1) as int, m);
        assert(q * m >= a && (q - 1) * m < a) by (nonlinear_arith)
            requires
                (a + b - 1) as int == m * q + rem,
                0 <= rem < m,
                m == b,
                b > 0,
        ;
    }
    r
}

} // verus!
