//! Ternary match rules and the decomposition of a numeric range into them.
//!
//! A rule is a pair of a value and a mask. It matches every input whose bits
//! under the mask equal those of the value. A rule whose mask clears only a
//! run of low bits, and whose value has these bits clear, matches a block: an
//! aligned run of consecutive integers whose length is a power of two.

use vstd::prelude::*;
use vstd::std_specs::bits::{axiom_u32_leading_zeros, axiom_u32_trailing_zeros, u32_leading_zeros, u32_trailing_zeros};

verus! {

/// One ternary match on a 32-bit key.
#[derive(Clone, Copy, Debug, PartialEq, Eq, Structural)]
pub struct TernaryMatch {
    pub value: u32,
    pub mask: u32,
}

impl TernaryMatch {
    /// Whether the rule matches the input `x`.
    pub open spec fn matches(&self, x: u32) -> bool {
        x & self.mask == self.value & self.mask
    }

    /// The rule matches a block: the mask clears a run of low bits only, all
    /// of them where it is zero, and the value has no bit outside the mask.
    pub open spec fn is_block(&self) -> bool {
        &&& self.value & self.mask == self.value
        &&& (self.mask == 0 || (!self.mask) & (((!self.mask) + 1) as u32) == 0)
    }

    /// Smallest input of a block.
    pub open spec fn low(&self) -> int {
        self.value as int
    }

    /// Largest input of a block.
    pub open spec fn high(&self) -> int {
        self.value + (!self.mask)
    }

    /// Number of inputs of a block.
    pub open spec fn size(&self) -> int {
        (!self.mask) + 1
    }

    /// The rule that matches `x` and nothing else.
    pub open spec fn exact(x: u32) -> TernaryMatch {
        TernaryMatch { value: x, mask: 0xFFFF_FFFFu32 }
    }

    /// The rule that matches every input.
    pub open spec fn wildcard() -> TernaryMatch {
        TernaryMatch { value: 0, mask: 0 }
    }
}

/// Exponent of the largest power of two that is at most `n`, for `n >= 1`.
pub open spec fn floor_log2(n: u32) -> u32 {
    (31 - u32_leading_zeros(n)) as u32
}

/// Exponent of the largest power of two that divides `cur`; 32 for zero,
/// which every power of two divides.
pub open spec fn alignment_log2(cur: u32) -> u32 {
    u32_trailing_zeros(cur)
}

/// Exponent of the largest power of two that is at most the number of
/// integers from `cur` to `end`, for `cur <= end`; 32 where these are all
/// the integers there are.
pub open spec fn count_log2(cur: u32, end: u32) -> u32 {
    if end - cur == u32::MAX {
        32
    } else {
        floor_log2((end - cur + 1) as u32)
    }
}

/// Exponent of the block that the decomposition takes at `cur` in a range
/// that ends at `end`: the largest block that is aligned at `cur` and no
/// longer than the range from `cur` on.
pub open spec fn block_log2(cur: u32, end: u32) -> u32 {
    if alignment_log2(cur) < count_log2(cur, end) {
        alignment_log2(cur)
    } else {
        count_log2(cur, end)
    }
}

/// Number of integers in a block with exponent `exp`.
pub open spec fn block_len(exp: u32) -> int {
    if exp >= 32 {
        0x1_0000_0000
    } else {
        (1u32 << exp) as int
    }
}

/// The rule for the block of `2^exp` integers that starts at `cur`; the
/// rule that matches every input for the block of all integers.
pub open spec fn block_rule(cur: u32, exp: u32) -> TernaryMatch {
    if exp >= 32 {
        TernaryMatch::wildcard()
    } else {
        TernaryMatch { value: cur, mask: !(((1u32 << exp) - 1) as u32) }
    }
}

/// Number of integers in the block that the decomposition takes at `cur`.
pub open spec fn block_size(cur: u32, end: u32) -> int {
    block_len(block_log2(cur, end))
}

/// The greedy decomposition of `start..=end`: blocks that follow one another
/// from `start`, each the largest that is aligned at its start and no longer
/// than what is left of the range, until a block ends at `end`. A single
/// integer is a block of one, an exact match. An empty range has no rule.
pub open spec fn greedy_cover(start: u32, end: u32) -> Seq<TernaryMatch>
    decreases end - start,
    via greedy_cover_decreases
{
    if start > end {
        Seq::empty()
    } else if start + block_size(start, end) > end {
        seq![block_rule(start, block_log2(start, end))]
    } else {
        seq![block_rule(start, block_log2(start, end))] + greedy_cover(
            (start + block_size(start, end)) as u32,
            end,
        )
    }
}

#[via_fn]
proof fn greedy_cover_decreases(start: u32, end: u32) {
    if start <= end {
        lemma_block_rule(start, end);
    }
}

/// Some rule of `rules` matches `x`.
pub open spec fn covered(rules: Seq<TernaryMatch>, x: u32) -> bool {
    exists|i: int| 0 <= i < rules.len() && (#[trigger] rules[i]).matches(x)
}

/// A block matches exactly the integers from its lowest to its highest.
pub proof fn lemma_block_matches_range(value: u32, mask: u32, x: u32)
    by (bit_vector)
    requires
        value & mask == value,
        (!mask) & (((!mask) + 1) as u32) == 0,
    ensures
        (x & mask == value & mask) <==> (value <= x && x <= value + (!mask)),
{
}

/// The mask of a block of `2^exp` integers clears exactly the low `exp` bits.
proof fn lemma_block_mask(exp: u32, size: u32, mask: u32)
    by (bit_vector)
    requires
        exp < 32,
        size == 1u32 << exp,
        mask == !((size - 1) as u32),
    ensures
        size >= 1,
        !mask == size - 1,
        (!mask) & (((!mask) + 1) as u32) == 0,
{
}

/// A power of two whose exponent is at most that of the highest set bit of
/// `n` is at most `n`.
proof fn lemma_pow2_le(n: u32, top: u32, exp: u32)
    by (bit_vector)
    requires
        top < 32,
        exp <= top,
        (n >> top) & 1u32 != 0u32,
    ensures
        (1u32 << exp) <= n,
{
}

/// A value whose low `zeros` bits are clear has its low `exp` bits clear, for
/// `exp <= zeros`.
proof fn lemma_low_bits_clear(cur: u32, zeros: u32, exp: u32, mask: u32)
    by (bit_vector)
    requires
        exp <= zeros,
        exp < 32,
        zeros <= 32,
        zeros < 32 ==> cur << ((32 - zeros) as u32) == 0,
        zeros == 32 ==> cur == 0,
        mask == !(((1u32 << exp) - 1) as u32),
    ensures
        cur & mask == cur,
{
}

/// A block matches exactly the integers from its lowest to its highest.
pub proof fn lemma_rule_matches_range(rule: TernaryMatch, x: u32)
    requires
        rule.is_block(),
    ensures
        rule.matches(x) <==> rule.low() <= x <= rule.high(),
{
    if rule.mask == 0 {
        let value = rule.value;
        assert(value & 0u32 == value ==> value == 0) by (bit_vector);
        assert(x & 0u32 == 0u32 & 0u32) by (bit_vector);
        assert(!0u32 == 0xFFFF_FFFFu32) by (bit_vector);
    } else {
        lemma_block_matches_range(rule.value, rule.mask, x);
    }
}

/// The highest set bit of a power of two is its exponent.
proof fn lemma_pow2_top(exp: u32, top: u32)
    by (bit_vector)
    requires
        exp < 32,
        top < 32,
        ((1u32 << exp) >> top) & 1u32 != 0u32,
    ensures
        top == exp,
{
}

/// A number whose highest set bit is at `top` is below the next power of
/// two.
proof fn lemma_below_next_pow2(n: u32, top: u32)
    by (bit_vector)
    requires
        top < 31,
        n >> ((top + 1) as u32) == 0,
    ensures
        n < (1u32 << ((top + 1) as u32)),
{
}

/// What holds of the block that the decomposition takes at `cur` in a range
/// that ends at `end`: it is a block of `block_size` integers from `cur`
/// on, and it ends at `end` or below.
pub proof fn lemma_block_rule(cur: u32, end: u32)
    requires
        cur <= end,
    ensures
        block_log2(cur, end) <= 32,
        block_rule(cur, block_log2(cur, end)).is_block(),
        block_rule(cur, block_log2(cur, end)).low() == cur,
        block_rule(cur, block_log2(cur, end)).size() == block_size(cur, end),
        1 <= block_size(cur, end) <= end - cur + 1,
{
    let exp = block_log2(cur, end);
    let rule = block_rule(cur, exp);
    axiom_u32_trailing_zeros(cur);
    let zeros = alignment_log2(cur);
    if end - cur == u32::MAX {
        assert(exp == 32);
        assert(0u32 & 0u32 == 0u32) by (bit_vector);
        assert(!0u32 == 0xFFFF_FFFFu32) by (bit_vector);
    } else {
        let count = (end - cur + 1) as u32;
        axiom_u32_leading_zeros(count);
        let top = floor_log2(count);
        assert(top < 32);
        assert(exp <= top && exp <= zeros);
        let size = 1u32 << exp;
        lemma_block_mask(exp, size, rule.mask);
        lemma_pow2_le(count, top, exp);
        lemma_low_bits_clear(cur, zeros, exp, rule.mask);
    }
}

/// A rule in front of a sequence of rules matches what it matches itself and
/// what the sequence matches.
proof fn lemma_covered_cons(first: TernaryMatch, rest: Seq<TernaryMatch>, x: u32)
    ensures
        covered(seq![first] + rest, x) <==> first.matches(x) || covered(rest, x),
{
    let all = seq![first] + rest;
    if covered(all, x) {
        let i = choose|i: int| 0 <= i < all.len() && (#[trigger] all[i]).matches(x);
        if i > 0 {
            assert(rest[i - 1] == all[i]);
        }
    }
    if first.matches(x) {
        assert(all[0].matches(x));
    }
    if covered(rest, x) {
        let i = choose|i: int| 0 <= i < rest.len() && (#[trigger] rest[i]).matches(x);
        assert(all[i + 1] == rest[i]);
    }
}

/// Range-to-ternary decomposition: the rules of the greedy cover of
/// `start..=end` match the integers of that range and no others.
pub proof fn lemma_greedy_cover_is_exact(start: u32, end: u32)
    ensures
        forall|x: u32| covered(greedy_cover(start, end), x) <==> start <= x <= end,
    decreases end - start,
{
    let rules = greedy_cover(start, end);
    if start <= end {
        let first = block_rule(start, block_log2(start, end));
        lemma_block_rule(start, end);
        if start + block_size(start, end) > end {
            assert forall|x: u32| covered(rules, x) <==> start <= x <= end by {
                lemma_rule_matches_range(first, x);
                lemma_covered_cons(first, Seq::empty(), x);
                assert(seq![first] + Seq::<TernaryMatch>::empty() =~= rules);
            }
        } else {
            let next = (start + block_size(start, end)) as u32;
            lemma_greedy_cover_is_exact(next, end);
            assert forall|x: u32| covered(rules, x) <==> start <= x <= end by {
                lemma_rule_matches_range(first, x);
                lemma_covered_cons(first, greedy_cover(next, end), x);
            }
        }
    }
}

/// Every rule of the greedy cover is a block that lies inside the range.
pub proof fn lemma_greedy_cover_blocks(start: u32, end: u32, i: int)
    requires
        0 <= i < greedy_cover(start, end).len(),
    ensures
        greedy_cover(start, end)[i].is_block(),
        start <= greedy_cover(start, end)[i].low(),
        greedy_cover(start, end)[i].high() <= end,
    decreases end - start,
{
    if start <= end {
        lemma_block_rule(start, end);
        if start + block_size(start, end) <= end && i > 0 {
            let next = (start + block_size(start, end)) as u32;
            lemma_greedy_cover_blocks(next, end, i - 1);
        }
    }
}

/// The rules of the greedy cover follow one another: a later rule begins
/// above the end of an earlier one, so no integer is matched twice.
pub proof fn lemma_greedy_cover_is_ordered(start: u32, end: u32, i: int, j: int)
    requires
        0 <= i < j < greedy_cover(start, end).len(),
    ensures
        greedy_cover(start, end)[i].high() < greedy_cover(start, end)[j].low(),
    decreases end - start,
{
    if start <= end && start + block_size(start, end) <= end {
        let next = (start + block_size(start, end)) as u32;
        lemma_block_rule(start, end);
        if i > 0 {
            lemma_greedy_cover_is_ordered(next, end, i - 1, j - 1);
        } else {
            lemma_greedy_cover_blocks(next, end, j - 1);
        }
    }
}

/// A range that is one block has one rule: where `start` is aligned to
/// `2^exp` and the range holds `2^exp` integers, the cover is the rule of
/// that block and nothing else.
pub proof fn lemma_aligned_range_is_one_rule(start: u32, end: u32, exp: u32)
    requires
        exp <= 32,
        start <= end,
        end - start + 1 == block_len(exp),
        alignment_log2(start) >= exp,
    ensures
        greedy_cover(start, end) == seq![block_rule(start, exp)],
{
    axiom_u32_trailing_zeros(start);
    if exp < 32 {
        let count = (end - start + 1) as u32;
        axiom_u32_leading_zeros(count);
        lemma_pow2_nonzero(exp);
        lemma_pow2_top(exp, floor_log2(count));
    }
    lemma_block_rule(start, end);
}

/// A range of one integer has one rule, the exact match of that integer.
pub proof fn lemma_single_is_exact(x: u32)
    ensures
        greedy_cover(x, x) == seq![TernaryMatch::exact(x)],
{
    axiom_u32_trailing_zeros(x);
    assert((1u32 << 0u32) == 1u32) by (bit_vector);
    assert(!0u32 == 0xFFFF_FFFFu32) by (bit_vector);
    lemma_aligned_range_is_one_rule(x, x, 0);
}

/// A power of two is not zero.
proof fn lemma_pow2_nonzero(exp: u32)
    by (bit_vector)
    requires
        exp < 32,
    ensures
        (1u32 << exp) != 0,
{
}

/// Decomposes `start..=end` into ternary rules: at each step the largest
/// block that is aligned at the current start and no longer than what is
/// left of the range. No cut of the range into blocks has fewer rules; a
/// range that is one block gives one rule, and an empty range gives none.
pub fn range_to_ternary(start: u32, end: u32) -> (rules: Vec<TernaryMatch>)
    ensures
        rules@ == greedy_cover(start, end),
        forall|x: u32| covered(rules@, x) <==> start <= x <= end,
        forall|cut: Seq<TernaryMatch>| #[trigger]
            is_block_partition(cut, start as int, end as int) ==> rules@.len() <= cut.len(),
{
    let mut rules: Vec<TernaryMatch> = Vec::new();
    if start > end {
        return rules;
    }
    let mut cur: u32 = start;
    loop
        invariant
            start <= cur <= end,
            rules@ + greedy_cover(cur, end) == greedy_cover(start, end),
        decreases end - cur,
    {
        let left: u32 = end - cur;
        let zeros: u32 = cur.trailing_zeros();
        let top: u32 = if left == u32::MAX {
            32
        } else {
            31 - (left + 1).leading_zeros()
        };
        proof {
            if left != u32::MAX {
                axiom_u32_leading_zeros((left + 1) as u32);
            }
            axiom_u32_trailing_zeros(cur);
            lemma_block_rule(cur, end);
        }
        let exp: u32 = if zeros < top {
            zeros
        } else {
            top
        };
        if exp >= 32 {
            rules.push(TernaryMatch { value: 0, mask: 0 });
            proof {
                assert(rules@ =~= greedy_cover(start, end));
                lemma_greedy_cover_is_exact(start, end);
                assert forall|cut: Seq<TernaryMatch>| #[trigger]
                    is_block_partition(cut, start as int, end as int) implies rules@.len()
                    <= cut.len() by {
                    lemma_greedy_cover_is_minimal(cut, start, end);
                }
            }
            return rules;
        }
        let size: u32 = 1u32 << exp;
        let rule = TernaryMatch { value: cur, mask: !(size - 1) };
        if size - 1 == left {
            rules.push(rule);
            proof {
                assert(rules@ =~= greedy_cover(start, end));
                lemma_greedy_cover_is_exact(start, end);
                assert forall|cut: Seq<TernaryMatch>| #[trigger]
                    is_block_partition(cut, start as int, end as int) implies rules@.len()
                    <= cut.len() by {
                    lemma_greedy_cover_is_minimal(cut, start, end);
                }
            }
            return rules;
        }
        proof {
            let next = (cur + size) as u32;
            assert(rules@.push(rule) + greedy_cover(next, end) =~= rules@ + greedy_cover(
                cur,
                end,
            ));
        }
        rules.push(rule);
        cur = cur + size;
    }
}

/// `n` is a power of two.
pub open spec fn is_pow2(n: int) -> bool
    decreases n,
{
    if n <= 0 {
        false
    } else if n == 1 {
        true
    } else {
        n % 2 == 0 && is_pow2(n / 2)
    }
}

/// The rules are blocks that follow one another from `start` to `end`
/// without a gap: a cut of the range into blocks.
pub open spec fn is_block_partition(rules: Seq<TernaryMatch>, start: int, end: int) -> bool
    decreases rules.len(),
{
    if rules.len() == 0 {
        start == end + 1
    } else {
        &&& rules[0].is_block()
        &&& rules[0].low() == start
        &&& rules[0].high() <= end
        &&& is_block_partition(rules.subrange(1, rules.len() as int), rules[0].high() + 1, end)
    }
}

/// Twice a power of two is a power of two.
proof fn lemma_pow2_double(n: int)
    requires
        is_pow2(n),
    ensures
        is_pow2(2 * n),
{
    assert((2 * n) / 2 == n && (2 * n) % 2 == 0);
}

/// Of two powers of two the smaller divides the larger.
proof fn lemma_pow2_divides(a: int, b: int)
    requires
        is_pow2(a),
        is_pow2(b),
        a <= b,
    ensures
        b % a == 0,
        a < b ==> 2 * a <= b,
    decreases a,
{
    if a > 1 {
        lemma_pow2_divides(a / 2, b / 2);
        let h = a / 2;
        let k = (b / 2) / h;
        vstd::arithmetic::div_mod::lemma_fundamental_div_mod(b / 2, h);
        assert(b == k * a) by (nonlinear_arith)
            requires
                b == 2 * (b / 2),
                a == 2 * h,
                b / 2 == h * k,
        ;
        assert(b % a == 0 && (a < b ==> 2 * a <= b)) by (nonlinear_arith)
            requires
                b == k * a,
                a > 0,
        ;
    }
}

/// A multiple of a number is a multiple of what divides that number.
proof fn lemma_multiple_of_divisor(t: int, big: int, small: int)
    requires
        big > 0,
        small > 0,
        t % big == 0,
        big % small == 0,
    ensures
        t % small == 0,
{
    vstd::arithmetic::div_mod::lemma_fundamental_div_mod(t, big);
    vstd::arithmetic::div_mod::lemma_fundamental_div_mod(big, small);
    let a = t / big;
    let b = big / small;
    assert(t == (b * a) * small) by (nonlinear_arith)
        requires
            t == big * a,
            big == small * b,
    ;
    vstd::arithmetic::div_mod::lemma_mod_multiples_basic(b * a, small);
}

/// A multiple of a number, moved by that number, is a multiple of it.
proof fn lemma_shifted_multiple(x: int, m: int)
    requires
        m > 0,
        x % m == 0,
    ensures
        (x + m) % m == 0,
        (x - m) % m == 0,
{
    vstd::arithmetic::div_mod::lemma_mod_multiples_vanish(1, x, m);
    vstd::arithmetic::div_mod::lemma_mod_multiples_vanish(-1, x, m);
    assert(m * 1 + x == x + m && m * (-1) + x == x - m) by (nonlinear_arith);
}

/// Of two multiples of a number, the larger is at least that number above
/// the smaller.
proof fn lemma_next_multiple(c: int, t: int, m: int)
    requires
        m > 0,
        c % m == 0,
        t % m == 0,
        c < t,
    ensures
        c + m <= t,
{
    vstd::arithmetic::div_mod::lemma_fundamental_div_mod(c, m);
    vstd::arithmetic::div_mod::lemma_fundamental_div_mod(t, m);
    let a = c / m;
    let b = t / m;
    assert(c + m <= t) by (nonlinear_arith)
        requires
            c == m * a,
            t == m * b,
            c < t,
            m > 0,
    ;
}

/// A number with one bit set is a power of two.
proof fn lemma_one_bit_is_pow2(n: u32)
    requires
        n != 0,
        n & ((n - 1) as u32) == 0,
    ensures
        is_pow2(n as int),
    decreases n,
{
    if n != 1 {
        assert(n % 2 == 0 && n / 2 != 0 && (n / 2) & (((n / 2) - 1) as u32) == 0) by (bit_vector)
            requires
                n != 0,
                n != 1,
                n & ((n - 1) as u32) == 0,
        ;
        lemma_one_bit_is_pow2(n / 2);
    }
}

/// A value without a bit below the one bit of `n` is a multiple of `n`.
proof fn lemma_masked_is_multiple(value: u32, n: u32)
    by (bit_vector)
    requires
        n != 0,
        n & ((n - 1) as u32) == 0,
        value & (!((n - 1) as u32)) == value,
    ensures
        value % n == 0,
{
}

/// The mask of a block that is not all integers, seen from its size.
proof fn lemma_mask_of_size(mask: u32, n: u32)
    by (bit_vector)
    requires
        mask != 0,
        n == ((!mask) + 1) as u32,
        (!mask) & (((!mask) + 1) as u32) == 0,
    ensures
        n != 0,
        n & ((n - 1) as u32) == 0,
        mask == !((n - 1) as u32),
        n - 1 == !mask,
{
}

/// The size of a block is a power of two, and its lowest integer is a
/// multiple of its size.
pub proof fn lemma_block_is_aligned(rule: TernaryMatch)
    requires
        rule.is_block(),
    ensures
        is_pow2(rule.size()),
        rule.low() % rule.size() == 0,
        rule.high() == rule.low() + rule.size() - 1,
        1 <= rule.size() <= 0x1_0000_0000,
{
    if rule.mask == 0 {
        let value = rule.value;
        assert(value & 0u32 == value ==> value == 0) by (bit_vector);
        assert(!0u32 == 0xFFFF_FFFFu32) by (bit_vector);
        assert(0x8000_0000u32 & ((0x8000_0000u32 - 1) as u32) == 0) by (bit_vector);
        lemma_one_bit_is_pow2(0x8000_0000u32);
        lemma_pow2_double(0x8000_0000);
    } else {
        let mask = rule.mask;
        assert(!mask != 0xFFFF_FFFFu32) by (bit_vector)
            requires
                mask != 0,
        ;
        let n = ((!mask) + 1) as u32;
        lemma_mask_of_size(mask, n);
        lemma_one_bit_is_pow2(n);
        lemma_masked_is_multiple(rule.value, n);
    }
}

/// Bit `exp` of a value is the lowest that is set: the value is no multiple
/// of the next power of two.
proof fn lemma_not_more_aligned(cur: u32, exp: u32)
    by (bit_vector)
    requires
        exp < 31,
        (cur >> exp) & 1u32 == 1u32,
    ensures
        cur % (1u32 << ((exp + 1) as u32)) != 0,
{
}

/// Twice the power of two with exponent `exp`.
proof fn lemma_pow2_next(exp: u32)
    by (bit_vector)
    requires
        exp < 31,
    ensures
        (1u32 << ((exp + 1) as u32)) == 2 * (1u32 << exp),
        (1u32 << exp) < 0x8000_0000u32 || exp == 31,
{
}

/// No block from `cur` on that lies in the range is larger than the one
/// that the decomposition takes: a block of twice its size would not be
/// aligned at `cur`, or would end above `end`.
pub proof fn lemma_no_larger_block(cur: u32, end: u32)
    requires
        cur <= end,
    ensures
        is_pow2(block_size(cur, end)),
        cur as int % block_size(cur, end) == 0,
        cur as int % (2 * block_size(cur, end)) != 0 || cur + 2 * block_size(cur, end) - 1 > end,
{
    let exp = block_log2(cur, end);
    let rule = block_rule(cur, exp);
    let big = block_size(cur, end);
    lemma_block_rule(cur, end);
    lemma_block_is_aligned(rule);
    axiom_u32_trailing_zeros(cur);
    assert((1u32 << 31u32) == 0x8000_0000u32) by (bit_vector);
    if exp < 32 {
        let size = 1u32 << exp;
        assert(big == size);
        if exp == alignment_log2(cur) {
            if exp < 31 {
                lemma_not_more_aligned(cur, exp);
                lemma_pow2_next(exp);
                let twice = 1u32 << ((exp + 1) as u32);
                assert(twice == 2 * big);
                assert(cur % twice != 0);
            } else {
                assert(cur != 0);
                assert(2 * big == 0x1_0000_0000);
                assert(cur as int % 0x1_0000_0000 == cur);
            }
        } else {
            let count = (end - cur + 1) as u32;
            axiom_u32_leading_zeros(count);
            assert(exp == floor_log2(count));
            if exp < 31 {
                lemma_below_next_pow2(count, exp);
                lemma_pow2_next(exp);
                assert(count < 2 * big);
            } else {
                assert(2 * big == 0x1_0000_0000);
            }
        }
    }
}

/// The cut of a range into blocks, from the first block that begins at or
/// after the end of a larger aligned block: blocks that begin inside the
/// larger block end inside it, so one of them ends where it ends. Returns
/// the number of blocks before that.
proof fn lemma_partition_suffix(rules: Seq<TernaryMatch>, cur: int, end: int, top: int, big: int) -> (k: int)
    requires
        is_block_partition(rules, cur, end),
        is_pow2(big),
        top % big == 0,
        top - big <= cur <= top <= end + 1,
        0 <= cur,
        end <= u32::MAX,
        cur == top - big ==> rules.len() > 0 && rules[0].size() < big,
    ensures
        0 <= k <= rules.len(),
        is_block_partition(rules.subrange(k, rules.len() as int), top, end),
        cur < top ==> k >= 1,
        cur == top - big ==> k >= 2,
    decreases rules.len(),
{
    if cur == top {
        assert(rules.subrange(0, rules.len() as int) =~= rules);
        0
    } else {
        let first = rules[0];
        let rest = rules.subrange(1, rules.len() as int);
        let size = first.size();
        lemma_block_is_aligned(first);
        if size >= big {
            lemma_pow2_divides(big, size);
            lemma_multiple_of_divisor(cur, size, big);
            lemma_shifted_multiple(top, big);
            lemma_next_multiple(top - big, cur, big);
        }
        lemma_pow2_divides(size, big);
        lemma_multiple_of_divisor(top, big, size);
        lemma_next_multiple(cur, top, size);
        let k = lemma_partition_suffix(rest, cur + size, end, top, big);
        assert(rest.subrange(k, rest.len() as int) =~= rules.subrange(k + 1, rules.len() as int));
        k + 1
    }
}

/// The greedy cover is a cut of the range into blocks.
pub proof fn lemma_greedy_cover_is_cut(start: u32, end: u32)
    requires
        start <= end,
    ensures
        is_block_partition(greedy_cover(start, end), start as int, end as int),
    decreases end - start,
{
    let rules = greedy_cover(start, end);
    let first = block_rule(start, block_log2(start, end));
    lemma_block_rule(start, end);
    lemma_block_is_aligned(first);
    let rest = rules.subrange(1, rules.len() as int);
    assert(rules[0] == first);
    assert(first.high() == start + block_size(start, end) - 1);
    if start + block_size(start, end) > end {
        assert(rest.len() == 0);
        assert(is_block_partition(rest, first.high() + 1, end as int));
    } else {
        let next = (start + block_size(start, end)) as u32;
        lemma_greedy_cover_is_cut(next, end);
        assert(rest =~= greedy_cover(next, end));
        assert(is_block_partition(rest, first.high() + 1, end as int));
    }
}

/// The decomposition is minimal among the cuts of the range into blocks: no
/// sequence of blocks that follow one another from `start` to `end` has
/// fewer rules than the greedy cover.
pub proof fn lemma_greedy_cover_is_minimal(rules: Seq<TernaryMatch>, start: u32, end: u32)
    requires
        start <= end,
        is_block_partition(rules, start as int, end as int),
    ensures
        greedy_cover(start, end).len() <= rules.len(),
    decreases rules.len(),
{
    let first = rules[0];
    let rest = rules.subrange(1, rules.len() as int);
    let size = first.size();
    let big = block_size(start, end);
    lemma_block_rule(start, end);
    lemma_no_larger_block(start, end);
    lemma_block_is_aligned(first);
    if size > big {
        lemma_pow2_divides(big, size);
        lemma_pow2_double(big);
        lemma_pow2_divides(2 * big, size);
        lemma_multiple_of_divisor(start as int, size, 2 * big);
        assert(false);
    }
    if start + big <= end {
        let next = (start + big) as u32;
        if size == big {
            lemma_greedy_cover_is_minimal(rest, next, end);
        } else {
            lemma_shifted_multiple(start as int, big);
            let k = lemma_partition_suffix(rules, start as int, end as int, start + big, big);
            lemma_greedy_cover_is_minimal(rules.subrange(k, rules.len() as int), next, end);
        }
    }
}

} // verus!
