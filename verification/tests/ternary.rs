use p4tg_controller::ternary::{range_to_ternary, TernaryMatch};

fn matches(rule: &TernaryMatch, x: u32) -> bool {
    x & rule.mask == rule.value & rule.mask
}

fn covered(rules: &[TernaryMatch], x: u32) -> bool {
    rules.iter().any(|r| matches(r, x))
}

#[test]
fn a_range_that_is_one_block_has_one_rule() {
    assert_eq!(range_to_ternary(0, 7), vec![TernaryMatch { value: 0, mask: 0xFFFF_FFF8 }]);
    assert_eq!(range_to_ternary(8, 15), vec![TernaryMatch { value: 8, mask: 0xFFFF_FFF8 }]);
    assert_eq!(range_to_ternary(6, 7), vec![TernaryMatch { value: 6, mask: 0xFFFF_FFFE }]);
    assert_eq!(range_to_ternary(1024, 2047), vec![TernaryMatch { value: 1024, mask: 0xFFFF_FC00 }]);
    assert_eq!(range_to_ternary(0x8000_0000, u32::MAX), vec![TernaryMatch { value: 0x8000_0000, mask: 0x8000_0000 }]);
    assert_eq!(range_to_ternary(0, u32::MAX), vec![TernaryMatch { value: 0, mask: 0 }]);
    assert_eq!(range_to_ternary(u32::MAX, u32::MAX), vec![TernaryMatch { value: u32::MAX, mask: u32::MAX }]);
}

#[test]
fn range_zero_to_six_is_cut_into_three_blocks() {
    assert_eq!(
        range_to_ternary(0, 6),
        vec![
            TernaryMatch { value: 0, mask: 0xFFFF_FFFC },
            TernaryMatch { value: 4, mask: 0xFFFF_FFFE },
            TernaryMatch { value: 6, mask: 0xFFFF_FFFF },
        ]
    );
}

#[test]
fn no_cut_into_aligned_blocks_has_fewer_rules() {
    // fewest[i]: fewest aligned blocks that make up i..=end
    for end in 0u32..64 {
        let mut fewest = vec![0usize; end as usize + 2];
        for start in (0..=end).rev() {
            let mut best = usize::MAX;
            let mut size = 1u32;
            while start % size == 0 && start + size - 1 <= end {
                best = best.min(1 + fewest[(start + size) as usize]);
                size *= 2;
            }
            fewest[start as usize] = best;
            assert_eq!(range_to_ternary(start, end).len(), best, "[{start},{end}]");
        }
    }
}

#[test]
fn single_value_is_an_exact_match() {
    assert_eq!(range_to_ternary(1500, 1500), vec![TernaryMatch { value: 1500, mask: 0xFFFF_FFFF }]);
}

#[test]
fn empty_range_has_no_rule() {
    assert!(range_to_ternary(8, 7).is_empty());
    assert!(range_to_ternary(u32::MAX, 0).is_empty());
}

#[test]
fn unaligned_start_takes_small_blocks_first() {
    let rules = range_to_ternary(5, 20);
    assert_eq!(
        rules,
        vec![
            TernaryMatch { value: 5, mask: 0xFFFF_FFFF },
            TernaryMatch { value: 6, mask: 0xFFFF_FFFE },
            TernaryMatch { value: 8, mask: 0xFFFF_FFF8 },
            TernaryMatch { value: 16, mask: 0xFFFF_FFFC },
            TernaryMatch { value: 20, mask: 0xFFFF_FFFF },
        ]
    );
}

#[test]
fn small_ranges_are_covered_exactly() {
    for start in 0u32..48 {
        for end in start..48 {
            let rules = range_to_ternary(start, end);
            for x in 0u32..64 {
                assert_eq!(covered(&rules, x), start <= x && x <= end, "[{start},{end}] at {x}");
            }
        }
    }
}

#[test]
fn no_value_is_matched_twice() {
    for start in 0u32..32 {
        for end in start..32 {
            let rules = range_to_ternary(start, end);
            for x in start..=end {
                assert_eq!(rules.iter().filter(|r| matches(r, x)).count(), 1);
            }
        }
    }
}

#[test]
fn large_ranges_are_made_of_aligned_blocks() {
    for (start, end) in [(1500u32, 2500u32), (0, u32::MAX), (1, u32::MAX - 1), (123_456, 987_654_321)] {
        let rules = range_to_ternary(start, end);
        let mut next = start as u64;
        for rule in &rules {
            let size = (!rule.mask) as u64 + 1;
            assert!(size.is_power_of_two());
            assert_eq!(rule.value as u64 % size, 0);
            assert_eq!(rule.value as u64, next);
            next = rule.value as u64 + size;
        }
        assert_eq!(next, end as u64 + 1);
        assert!(covered(&rules, start));
        assert!(covered(&rules, end));
        if start > 0 {
            assert!(!covered(&rules, start - 1));
        }
        if end < u32::MAX {
            assert!(!covered(&rules, end + 1));
        }
    }
}
