//! NTT-domain automorphism `x -> x^degree` as a permutation of evaluation
//! points.
//!
//! NTT values are stored in bit-reversed order: index `br(i)` holds the
//! evaluation at `w^(2i + 1)`. The automorphism maps that point to
//! `w^(degree (2i + 1) mod 2N)`, so `out[br(i)] = in[br(target(i))]` with
//! `target(i) = ((degree (2i + 1) mod 2N) - 1) / 2`.
use crate::arith::is_power_of_two;
use crate::modular::power_of_two_exponent;
use vstd::arithmetic::div_mod::*;
use vstd::arithmetic::mul::*;
use vstd::arithmetic::power2::*;
use vstd::prelude::*;

verus! {

/// The lowest `k` bits of `x` in reverse order.
pub open spec fn reverse_bits(x: nat, k: nat) -> nat
    decreases k,
{
    if k == 0 {
        0
    } else {
        (x % 2) * pow2((k - 1) as nat) + reverse_bits(x / 2, (k - 1) as nat)
    }
}

/// The evaluation index that index `i` is mapped from by `x -> x^degree`.
pub open spec fn automorphism_target(degree: nat, i: nat, poly_length: nat) -> nat {
    (((degree * (2 * i + 1)) % (2 * poly_length) - 1) / 2) as nat
}

/// Bit reversal stays below `2^k`.
pub proof fn lemma_reverse_bits_bound(x: nat, k: nat)
    ensures
        reverse_bits(x, k) < pow2(k),
    decreases k,
{
    if k == 0 {
        lemma2_to64();
    } else {
        let h = pow2((k - 1) as nat);
        lemma_reverse_bits_bound(x / 2, (k - 1) as nat);
        lemma_pow2_unfold(k);
        lemma_mod_bound(x as int, 2);
        assert((x % 2) * h <= h) by (nonlinear_arith)
            requires
                0 <= x % 2 < 2,
                h >= 0,
        ;
    }
}

/// Bit reversal of `k` bits is injective on `[0, 2^k)`.
pub proof fn lemma_reverse_bits_injective(x: nat, y: nat, k: nat)
    requires
        x < pow2(k),
        y < pow2(k),
        reverse_bits(x, k) == reverse_bits(y, k),
    ensures
        x == y,
    decreases k,
{
    if k == 0 {
        lemma2_to64();
    } else {
        let h = pow2((k - 1) as nat);
        lemma_pow2_unfold(k);
        lemma_pow2_pos((k - 1) as nat);
        lemma_reverse_bits_bound(x / 2, (k - 1) as nat);
        lemma_reverse_bits_bound(y / 2, (k - 1) as nat);
        lemma_mod_bound(x as int, 2);
        lemma_mod_bound(y as int, 2);
        let rx = reverse_bits((x / 2) as nat, (k - 1) as nat);
        let ry = reverse_bits((y / 2) as nat, (k - 1) as nat);
        // the top bit and the rest of the reversal are determined
        assert(x % 2 == y % 2 && rx == ry) by (nonlinear_arith)
            requires
                (x % 2) * h + rx == (y % 2) * h + ry,
                0 <= x % 2 < 2,
                0 <= y % 2 < 2,
                rx < h,
                ry < h,
                h > 0,
        ;
        lemma_fundamental_div_mod(x as int, 2);
        lemma_fundamental_div_mod(y as int, 2);
        lemma_div_lt_pow2(x, k);
        lemma_div_lt_pow2(y, k);
        lemma_reverse_bits_injective(x / 2, y / 2, (k - 1) as nat);
    }
}

proof fn lemma_div_lt_pow2(x: nat, k: nat)
    requires
        k > 0,
        x < pow2(k),
    ensures
        x / 2 < pow2((k - 1) as nat),
{
    lemma_pow2_unfold(k);
    lemma_fundamental_div_mod(x as int, 2);
    lemma_mod_bound(x as int, 2);
}

/// Reverses the lowest `bits` bits of `x`.
pub fn reverse_lsbs(x: usize, bits: u32) -> (r: usize)
    requires
        bits < 64,
        pow2(bits as nat) <= usize::MAX + 1,
        x < pow2(bits as nat),
    ensures
        r == reverse_bits(x as nat, bits as nat),
        r < pow2(bits as nat),
{
    let mut r: usize = 0;
    let mut y: usize = x;
    let mut b: u32 = 0;
    proof {
        lemma2_to64();
        lemma2_to64_rest();
        lemma_pow2_strictly_increases(bits as nat, 64);
        lemma_reverse_bits_bound(x as nat, bits as nat);
    }
    while b < bits
        invariant
            b <= bits < 64,
            x < pow2(bits as nat),
            pow2(bits as nat) <= usize::MAX + 1,
            r < pow2(b as nat),
            r * pow2((bits - b) as nat) + reverse_bits(y as nat, (bits - b) as nat) == reverse_bits(
                x as nat,
                bits as nat,
            ),
        decreases bits - b,
    {
        proof {
            let m = (bits - b) as nat;
            lemma_pow2_unfold(m);
            lemma_pow2_unfold((b + 1) as nat);
            if b + 1 < bits {
                lemma_pow2_strictly_increases((b + 1) as nat, bits as nat);
            }
            lemma_mod_bound(y as int, 2);
            let h = pow2((m - 1) as nat);
            assert(r * pow2(m) + (y % 2) * h == (2 * r + y % 2) * h) by (nonlinear_arith)
                requires
                    pow2(m) == 2 * h,
            ;
            assert(2 * r + y % 2 < pow2((b + 1) as nat));
        }
        r = 2 * r + y % 2;
        y = y / 2;
        b = b + 1;
    }
    proof {
        lemma2_to64();
        assert(r * pow2(0) == r);
    }
    r
}

/// Generates the NTT-domain permutation of `x -> x^degree` in bit-reversed
/// storage order: `perm[br(i)] = br(target(i))`, meaning
/// `out[dst] = in[perm[dst]]`.
pub fn generate_ntt_permutation(degree: usize, poly_length: usize) -> (perm: Vec<u32>)
    requires
        is_power_of_two(poly_length as nat),
        2 <= poly_length <= 0x1_0000_0000,
        degree < 2 * poly_length,
        degree % 2 == 1,
    ensures
        perm@.len() == poly_length,
        forall|dst: int| 0 <= dst < poly_length ==> (#[trigger] perm@[dst]) < poly_length,
        forall|i: nat|
            i < poly_length ==> perm@[reverse_bits(i, log2_spec(poly_length as nat)) as int]
                == reverse_bits(
                automorphism_target(degree as nat, i, poly_length as nat),
                log2_spec(poly_length as nat),
            ),
        forall|i: nat, j: nat|
            i < poly_length && j < poly_length && i != j ==> perm@[reverse_bits(
                i,
                log2_spec(poly_length as nat),
            ) as int] != perm@[reverse_bits(j, log2_spec(poly_length as nat)) as int],
{
    let twice_n = (poly_length as u128) * 2;
    let log_n = match power_of_two_exponent(poly_length as u128) {
        Some(k) => k,
        None => {
            proof {
                assert(false);
            }
            0
        },
    };
    proof {
        lemma2_to64();
        lemma2_to64_rest();
        if log_n >= 33 {
            lemma_pow2_strictly_increases(32, log_n as nat);
        }
        assert(log_n == log2_spec(poly_length as nat)) by {
            lemma_log2_unique(poly_length as nat, log_n as nat);
        }
    }
    let mut perm: Vec<u32> = Vec::new();
    let mut k: usize = 0;
    while k < poly_length
        invariant
            k <= poly_length,
            perm@.len() == k,
            forall|j: int| 0 <= j < k ==> perm@[j] == 0,
        decreases poly_length - k,
    {
        perm.push(0);
        k = k + 1;
    }
    let mut i: usize = 0;
    while i < poly_length
        invariant
            2 <= poly_length <= 0x1_0000_0000,
            pow2(log_n as nat) == poly_length,
            log_n < 64,
            log_n == log2_spec(poly_length as nat),
            twice_n == 2 * poly_length,
            degree < twice_n,
            degree % 2 == 1,
            i <= poly_length,
            perm@.len() == poly_length,
            forall|dst: int| 0 <= dst < poly_length ==> (#[trigger] perm@[dst]) < poly_length,
            forall|j: nat|
                j < i ==> perm@[reverse_bits(j, log_n as nat) as int] == reverse_bits(
                    automorphism_target(degree as nat, j, poly_length as nat),
                    log_n as nat,
                ),
        decreases poly_length - i,
    {
        let odd = 2 * (i as u128) + 1;
        proof {
            lemma_mul_upper_bound(degree as int, twice_n as int, odd as int, twice_n as int);
            lemma_mul_upper_bound(twice_n as int, 0x2_0000_0000, twice_n as int, 0x2_0000_0000);
        }
        // degree * (2i + 1) mod 2N
        let j = ((degree as u128) * odd) % twice_n;
        proof {
            lemma_odd_product_mod_even(degree as nat, odd as nat, poly_length as nat);
        }
        let target = ((j - 1) / 2) as usize;
        let out_br = reverse_lsbs(i, log_n);
        let in_br = reverse_lsbs(target, log_n);
        perm.set(out_br, in_br as u32);
        proof {
            assert forall|jj: nat| jj < i + 1 implies perm@[reverse_bits(jj, log_n as nat) as int]
                == reverse_bits(
                automorphism_target(degree as nat, jj, poly_length as nat),
                log_n as nat,
            ) by {
                if jj < i {
                    lemma_reverse_bits_bound(jj, log_n as nat);
                    if reverse_bits(jj, log_n as nat) == reverse_bits(i as nat, log_n as nat) {
                        lemma_reverse_bits_injective(jj, i as nat, log_n as nat);
                    }
                }
            }
        }
        i = i + 1;
    }
    proof {
        assert forall|a: nat, b: nat| a < poly_length && b < poly_length && a != b implies perm@[reverse_bits(
            a,
            log_n as nat,
        ) as int] != perm@[reverse_bits(b, log_n as nat) as int] by {
            let ta = automorphism_target(degree as nat, a, poly_length as nat);
            let tb = automorphism_target(degree as nat, b, poly_length as nat);
            lemma_odd_product_mod_even(degree as nat, 2 * a + 1, poly_length as nat);
            lemma_odd_product_mod_even(degree as nat, 2 * b + 1, poly_length as nat);
            if reverse_bits(ta, log_n as nat) == reverse_bits(tb, log_n as nat) {
                lemma_reverse_bits_injective(ta, tb, log_n as nat);
                lemma_automorphism_target_injective(degree as nat, a, b, poly_length as nat);
            }
        }
    }
    perm
}

/// `log2` of a power of two.
pub open spec fn log2_spec(n: nat) -> nat {
    choose|k: nat| pow2(k) == n
}

proof fn lemma_log2_unique(n: nat, k: nat)
    requires
        pow2(k) == n,
    ensures
        log2_spec(n) == k,
{
    let c = log2_spec(n);
    assert(pow2(c) == n);
    if c < k {
        lemma_pow2_strictly_increases(c, k);
    } else if c > k {
        lemma_pow2_strictly_increases(k, c);
    }
}

/// An odd number times an odd number, reduced modulo an even `2N`, is odd.
proof fn lemma_odd_product_mod_even(a: nat, b: nat, n: nat)
    requires
        a % 2 == 1,
        b % 2 == 1,
        b < 2 * n,
        n > 0,
    ensures
        ((a * b) % (2 * n)) % 2 == 1,
        (a * b) % (2 * n) >= 1,
        ((((a * b) % (2 * n)) - 1) / 2) < n,
{
    let p = a * b;
    lemma_fundamental_div_mod(a as int, 2);
    lemma_fundamental_div_mod(b as int, 2);
    assert(p % 2 == 1) by {
        let x = a / 2;
        let y = b / 2;
        assert(p == 2 * (2 * x * y + x + y) + 1) by (nonlinear_arith)
            requires
                a == 2 * x + 1,
                b == 2 * y + 1,
                p == a * b,
        ;
        lemma_fundamental_div_mod_converse(p as int, 2, (2 * x * y + x + y) as int, 1);
    }
    lemma_mod_mod(p as int, 2, n as int);
    lemma_mul_is_commutative(2, n as int);
    lemma_mod_bound(p as int, (2 * n) as int);
}

/// A power of two that divides an odd multiple of `x` divides `x`.
proof fn lemma_pow2_divides_odd_multiple(d: int, x: int, k: nat)
    requires
        d % 2 == 1,
        (d * x) % (pow2(k) as int) == 0,
    ensures
        x % (pow2(k) as int) == 0,
    decreases k,
{
    if k == 0 {
        lemma2_to64();
        lemma_fundamental_div_mod(x, 1);
        lemma_mod_bound(x, 1);
    } else {
        let h = pow2((k - 1) as nat) as int;
        lemma_pow2_unfold(k);
        lemma_pow2_pos((k - 1) as nat);
        // d * x is even, so x is even
        lemma_mod_mod(d * x, 2, h);
        lemma_mul_is_commutative(2, h);
        assert(x % 2 == 0) by {
            lemma_mul_mod_noop(d, x, 2);
            lemma_mod_bound(x, 2);
            if x % 2 == 1 {
                assert((d % 2) * (x % 2) == 1);
                lemma_small_mod(1, 2);
            }
        }
        let y = x / 2;
        lemma_fundamental_div_mod(x, 2);
        assert(x == 2 * y);
        // 2 (d y) = 2 h c  gives  d y = h c
        let c = (d * x) / (2 * h);
        lemma_fundamental_div_mod(d * x, 2 * h);
        assert(d * y == h * c) by (nonlinear_arith)
            requires
                d * x == (2 * h) * c,
                x == 2 * y,
        ;
        lemma_mod_multiples_basic(c, h);
        lemma_mul_is_commutative(h, c);
        lemma_pow2_divides_odd_multiple(d, y, (k - 1) as nat);
        // y = h r  gives  x = 2 h r
        let r = y / h;
        lemma_fundamental_div_mod(y, h);
        assert(x == (2 * h) * r) by (nonlinear_arith)
            requires
                y == h * r,
                x == 2 * y,
        ;
        lemma_mod_multiples_basic(r, 2 * h);
        lemma_mul_is_commutative(2 * h, r);
    }
}

/// `x -> x^degree` with an odd degree maps distinct evaluation indices to
/// distinct indices: it permutes the evaluation points.
pub proof fn lemma_automorphism_target_injective(degree: nat, i: nat, j: nat, poly_length: nat)
    requires
        is_power_of_two(poly_length),
        degree % 2 == 1,
        i < poly_length,
        j < poly_length,
        automorphism_target(degree, i, poly_length) == automorphism_target(degree, j, poly_length),
    ensures
        i == j,
{
    let n = poly_length as int;
    let two_n = 2 * n;
    let k = choose|k: nat| pow2(k) == poly_length;
    lemma_pow2_pos(k);
    let a: int = (degree * (2 * i + 1)) as int;
    let b: int = (degree * (2 * j + 1)) as int;
    lemma_odd_product_mod_even(degree, 2 * i + 1, poly_length);
    lemma_odd_product_mod_even(degree, 2 * j + 1, poly_length);
    lemma_fundamental_div_mod(a % two_n - 1, 2);
    lemma_fundamental_div_mod(b % two_n - 1, 2);
    // both residues are odd, so equal halves give equal residues
    assert(a % two_n == b % two_n);
    lemma_sub_mod_noop(a as int, b as int, two_n);
    lemma_mod_self_0(two_n);
    lemma_small_mod(0, two_n as nat);
    assert((a - b) % two_n == 0);
    let x = i - j;
    assert(a - b == 2 * (degree * x)) by (nonlinear_arith)
        requires
            a == degree * (2 * i + 1),
            b == degree * (2 * j + 1),
            x == i - j,
    ;
    // 2 (degree x) = 2N c  gives  degree x = N c
    let c = (a - b) / two_n;
    lemma_fundamental_div_mod(a - b, two_n);
    assert(degree * x == n * c) by (nonlinear_arith)
        requires
            a - b == two_n * c,
            a - b == 2 * (degree * x),
            two_n == 2 * n,
    ;
    lemma_mod_multiples_basic(c, n);
    lemma_mul_is_commutative(n, c);
    lemma_pow2_divides_odd_multiple(degree as int, x, k);
    // |x| < N and N divides x
    lemma_fundamental_div_mod(x, n);
    let m = x / n;
    assert(m == 0) by (nonlinear_arith)
        requires
            x == n * m,
            -n < x < n,
            n > 0,
    ;
}

/// The operation applied to each NTT polynomial.
pub enum NttAutoOperation {
    /// Permutation table: `out[i] = in[perm[i]]` in bit-reversed storage.
    Permutation(Vec<u32>),
    /// Identity mapping (degree 1).
    Identity,
}

/// NTT-domain automorphism helper: a precomputed permutation of evaluation
/// indices in bit-reversed storage order.
pub struct NttAutoHelper {
    poly_length: usize,
    operation: NttAutoOperation,
}

impl NttAutoHelper {
    #[verifier::type_invariant]
    closed spec fn inv(self) -> bool {
        &&& self.poly_length > 0
        &&& match self.operation {
            NttAutoOperation::Permutation(perm) => {
                &&& perm@.len() == self.poly_length
                &&& forall|k: int| 0 <= k < perm@.len() ==> (#[trigger] perm@[k]) < self.poly_length
            },
            NttAutoOperation::Identity => true,
        }
    }

    pub closed spec fn poly_length_spec(self) -> nat {
        self.poly_length as nat
    }

    /// The evaluation index read for output index `k`.
    pub closed spec fn source_index(self, k: int) -> int {
        match self.operation {
            NttAutoOperation::Permutation(perm) => perm@[k] as int,
            NttAutoOperation::Identity => k,
        }
    }

    /// Creates the helper of `x -> x^degree` for polynomials of length `N`.
    pub fn new(degree: usize, poly_length: usize) -> (h: Self)
        requires
            is_power_of_two(poly_length as nat),
            2 <= poly_length <= 0x1_0000_0000,
            degree < 2 * poly_length,
            degree % 2 == 1,
        ensures
            h.poly_length_spec() == poly_length,
            degree == 1 ==> forall|k: int| 0 <= k < poly_length ==> #[trigger] h.source_index(k) == k,
            degree != 1 ==> forall|i: nat|
                i < poly_length ==> h.source_index(
                    reverse_bits(i, log2_spec(poly_length as nat)) as int,
                ) == reverse_bits(
                    automorphism_target(degree as nat, i, poly_length as nat),
                    log2_spec(poly_length as nat),
                ),
    {
        let operation = if degree == 1 {
            NttAutoOperation::Identity
        } else {
            NttAutoOperation::Permutation(generate_ntt_permutation(degree, poly_length))
        };
        NttAutoHelper { poly_length, operation }
    }

    /// Returns the polynomial length `N`.
    pub fn poly_length(&self) -> (r: usize)
        ensures
            r == self.poly_length_spec(),
            r > 0,
    {
        proof {
            use_type_invariant(self);
        }
        self.poly_length
    }

    /// Applies the automorphism to one NTT polynomial: `result[k] = poly[source(k)]`.
    pub fn ntt_poly_auto_inplace<T: Copy>(&self, poly: &[T], result: &mut [T])
        requires
            poly@.len() == self.poly_length_spec(),
            old(result)@.len() == self.poly_length_spec(),
        ensures
            final(result)@.len() == old(result)@.len(),
            forall|k: int|
                #![trigger final(result)@[k]]
                0 <= k < poly@.len() ==> 0 <= self.source_index(k) < poly@.len()
                    && final(result)@[k] == poly@[self.source_index(k)],
    {
        proof {
            use_type_invariant(self);
        }
        let n = poly.len();
        let mut k: usize = 0;
        while k < n
            invariant
                self.inv(),
                n == poly@.len(),
                n == self.poly_length_spec(),
                result@.len() == n,
                k <= n,
                forall|j: int| 0 <= j < n ==> 0 <= #[trigger] self.source_index(j) < n,
                forall|j: int| 0 <= j < k ==> #[trigger] result@[j] == poly@[self.source_index(j)],
            decreases n - k,
        {
            let src = match &self.operation {
                NttAutoOperation::Permutation(perm) => perm[k] as usize,
                NttAutoOperation::Identity => k,
            };
            result[k] = poly[src];
            k = k + 1;
        }
    }

    /// Applies the automorphism to every modulus component of a DCRT
    /// polynomial: the same permutation acts on each block of `N` values.
    pub fn dcrt_poly_ntt_auto_to<T: Copy>(&self, dcrt_poly: &[T], result: &mut [T])
        requires
            dcrt_poly@.len() == old(result)@.len(),
            dcrt_poly@.len() % self.poly_length_spec() == 0,
        ensures
            final(result)@.len() == old(result)@.len(),
            forall|c: int, k: int|
                #![trigger final(result)@[c * self.poly_length_spec() + k]]
                0 <= c < dcrt_poly@.len() / self.poly_length_spec() && 0 <= k
                    < self.poly_length_spec() ==> 0 <= self.source_index(k) < self.poly_length_spec()
                    && final(result)@[c * self.poly_length_spec() + k]
                    == dcrt_poly@[c * self.poly_length_spec() + self.source_index(k)],
    {
        proof {
            use_type_invariant(self);
        }
        let n = self.poly_length;
        let total = dcrt_poly.len();
        let blocks = total / n;
        proof {
            lemma_fundamental_div_mod(total as int, n as int);
            lemma_mul_is_commutative(blocks as int, n as int);
        }
        let mut c: usize = 0;
        while c < blocks
            invariant
                self.inv(),
                n == self.poly_length_spec(),
                n > 0,
                total == dcrt_poly@.len(),
                result@.len() == total,
                blocks * n == total,
                blocks == total / n,
                c <= blocks,
                forall|j: int| 0 <= j < n ==> 0 <= #[trigger] self.source_index(j) < n,
                forall|cc: int, k: int|
                    0 <= cc < c && 0 <= k < n ==> #[trigger] result@[cc * n + k] == dcrt_poly@[cc * n
                        + self.source_index(k)],
            decreases blocks - c,
        {
            proof {
                assert((c + 1) * n <= blocks * n) by (nonlinear_arith)
                    requires
                        c < blocks,
                        n > 0,
                ;
                assert((c + 1) * n == c * n + n) by (nonlinear_arith);
            }
            let base = c * n;
            let mut k: usize = 0;
            while k < n
                invariant
                    self.inv(),
                    n == self.poly_length_spec(),
                    n > 0,
                    total == dcrt_poly@.len(),
                    result@.len() == total,
                    blocks * n == total,
                    c < blocks,
                    base == c * n,
                    base + n <= total,
                    k <= n,
                    forall|j: int| 0 <= j < n ==> 0 <= #[trigger] self.source_index(j) < n,
                    forall|cc: int, kk: int|
                        0 <= cc < c && 0 <= kk < n ==> #[trigger] result@[cc * n + kk] == dcrt_poly@[cc
                            * n + self.source_index(kk)],
                    forall|kk: int|
                        0 <= kk < k ==> #[trigger] result@[base + kk] == dcrt_poly@[base
                            + self.source_index(kk)],
                decreases n - k,
            {
                let src = match &self.operation {
                    NttAutoOperation::Permutation(perm) => perm[k] as usize,
                    NttAutoOperation::Identity => k,
                };
                let ghost before = result@;
                result[base + k] = dcrt_poly[base + src];
                proof {
                    assert forall|cc: int, kk: int| 0 <= cc < c && 0 <= kk < n implies #[trigger] result@[cc
                        * n + kk] == before[cc * n + kk] by {
                        assert(cc * n + kk < c * n) by (nonlinear_arith)
                            requires
                                0 <= cc < c,
                                0 <= kk < n,
                        ;
                    }
                }
                k = k + 1;
            }
            proof {
                assert forall|cc: int, kk: int| 0 <= cc < c + 1 && 0 <= kk < n implies #[trigger] result@[cc
                    * n + kk] == dcrt_poly@[cc * n + self.source_index(kk)] by {
                    if cc == c {
                        assert(result@[base + kk] == dcrt_poly@[base + self.source_index(kk)]);
                    }
                }
            }
            c = c + 1;
        }
    }
}

} // verus!
