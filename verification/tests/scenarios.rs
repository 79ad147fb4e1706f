use popcount_lab::{
    count_ones_by, count_ones_inplace_0, count_ones_inplace_1, count_ones_inplace_2,
    count_ones_inplace_3, count_ones_inplace_4, count_ones_inplace_5, count_ones_inplace_naive,
    count_ones_memo_0, count_ones_memo_1, count_ones_memo_2, count_ones_memo_small,
    inbuilt_count_ones, AlgorithmId, FullTable, Sample, SmallTable, Tables, Width,
};

fn every_count(num: Sample) -> Vec<u8> {
    let tables = Tables::build(num.width());
    AlgorithmId::all()
        .iter()
        .filter_map(|id| count_ones_by(*id, &tables, num))
        .collect()
}

#[test]
fn sixteen_bit_zero_counts_zero() {
    let counts = every_count(Sample::W16(0b0000000000000000));
    assert_eq!(counts, vec![0u8; 11]);
}

#[test]
fn sixteen_bit_all_ones_counts_sixteen() {
    let counts = every_count(Sample::W16(0b1111111111111111));
    assert_eq!(counts, vec![16u8; 11]);
}

#[test]
fn sixteen_bit_alternating_counts_eight() {
    let counts = every_count(Sample::W16(0b1010101010101010));
    assert_eq!(counts, vec![8u8; 11]);
}

#[test]
fn sixteen_bit_one_counts_one() {
    let counts = every_count(Sample::W16(0b0000000000000001));
    assert_eq!(counts, vec![1u8; 11]);
}

#[test]
fn named_functions_on_the_four_scenarios() {
    let small = SmallTable::build();
    let full = FullTable::build(Width::W16).unwrap();
    let cases: [(u16, u8); 4] = [
        (0b0000000000000000, 0),
        (0b1111111111111111, 16),
        (0b1010101010101010, 8),
        (0b0000000000000001, 1),
    ];
    for (value, expected) in cases {
        let num = Sample::W16(value);
        assert_eq!(inbuilt_count_ones(num), expected);
        assert_eq!(count_ones_inplace_naive(num), expected);
        assert_eq!(count_ones_inplace_0(num), expected);
        assert_eq!(count_ones_inplace_1(num), expected);
        assert_eq!(count_ones_inplace_2(num), expected);
        assert_eq!(count_ones_inplace_3(num), expected);
        assert_eq!(count_ones_inplace_4(num), expected);
        assert_eq!(count_ones_inplace_5(num), expected);
        assert_eq!(count_ones_memo_0(&full, num), expected);
        assert_eq!(count_ones_memo_1(&small, num), expected);
        assert_eq!(count_ones_memo_2(&small, num), expected);
    }
}

#[test]
fn both_table_builders_on_the_four_scenarios() {
    let doubled = FullTable::build(Width::W16).unwrap();
    let asked = FullTable::build_by_primitive(Width::W16).unwrap();
    let cases: [(u16, u8); 4] = [
        (0b0000000000000000, 0),
        (0b1111111111111111, 16),
        (0b1010101010101010, 8),
        (0b0000000000000001, 1),
    ];
    for (value, expected) in cases {
        assert_eq!(doubled.entries()[value as usize], expected);
        assert_eq!(asked.entries()[value as usize], expected);
        assert_eq!(doubled.get(value as u32), expected);
        assert_eq!(asked.get(value as u32), expected);
    }
}

#[test]
fn boundary_zero_for_both_widths() {
    assert_eq!(every_count(Sample::zero(Width::W16)), vec![0u8; 11]);
    assert_eq!(every_count(Sample::zero(Width::W32)), vec![0u8; 10]);
}

#[test]
fn boundary_all_ones_counts_the_width() {
    assert_eq!(Sample::all_ones(Width::W16), Sample::W16(0xffff));
    assert_eq!(Sample::all_ones(Width::W32), Sample::W32(0xffff_ffff));
    assert_eq!(every_count(Sample::all_ones(Width::W16)), vec![16u8; 11]);
    assert_eq!(every_count(Sample::all_ones(Width::W32)), vec![32u8; 10]);
}

#[test]
fn boundary_highest_bit_counts_one() {
    assert_eq!(Sample::highest_bit(Width::W16), Sample::W16(0x8000));
    assert_eq!(Sample::highest_bit(Width::W32), Sample::W32(0x8000_0000));
    assert_eq!(every_count(Sample::highest_bit(Width::W16)), vec![1u8; 11]);
    assert_eq!(every_count(Sample::highest_bit(Width::W32)), vec![1u8; 10]);
}

#[test]
fn thirty_two_bit_values_with_known_counts() {
    let small = SmallTable::build();
    let cases: [(u32, u8); 6] = [
        (0x0000_0000, 0),
        (0xffff_ffff, 32),
        (0xaaaa_aaaa, 16),
        (0x8000_0001, 2),
        (0x00ff_f000, 12),
        (0xdead_beef, 24),
    ];
    for (value, expected) in cases {
        let num = Sample::W32(value);
        assert_eq!(inbuilt_count_ones(num), expected);
        assert_eq!(count_ones_inplace_naive(num), expected);
        assert_eq!(count_ones_inplace_0(num), expected);
        assert_eq!(count_ones_inplace_1(num), expected);
        assert_eq!(count_ones_inplace_2(num), expected);
        assert_eq!(count_ones_inplace_3(num), expected);
        assert_eq!(count_ones_inplace_4(num), expected);
        assert_eq!(count_ones_inplace_5(num), expected);
        assert_eq!(count_ones_memo_1(&small, num), expected);
        assert_eq!(count_ones_memo_2(&small, num), expected);
    }
}

#[test]
fn closed_form_counts_each_field() {
    assert_eq!(count_ones_inplace_3(Sample::W32(0x0000_0fff)), 12);
    assert_eq!(count_ones_inplace_3(Sample::W32(0x00ff_f000)), 12);
    assert_eq!(count_ones_inplace_3(Sample::W32(0xff00_0000)), 8);
    assert_eq!(count_ones_inplace_3(Sample::W32(0x0100_1001)), 3);
}

#[test]
fn early_exit_scan_counts_small_and_large_values() {
    assert_eq!(count_ones_inplace_1(Sample::W32(1)), 1);
    assert_eq!(count_ones_inplace_1(Sample::W32(2)), 1);
    assert_eq!(count_ones_inplace_1(Sample::W32(3)), 2);
    assert_eq!(count_ones_inplace_1(Sample::W32(0x8000_0000)), 1);
    assert_eq!(count_ones_inplace_1(Sample::W16(0x8000)), 1);
    assert_eq!(count_ones_inplace_1(Sample::W16(0x7fff)), 15);
}

#[test]
fn small_table_lookup_of_single_bytes() {
    let small = SmallTable::build();
    assert_eq!(count_ones_memo_small(&small, 0), 0);
    assert_eq!(count_ones_memo_small(&small, 1), 1);
    assert_eq!(count_ones_memo_small(&small, 0x80), 1);
    assert_eq!(count_ones_memo_small(&small, 0xaa), 4);
    assert_eq!(count_ones_memo_small(&small, 0xff), 8);
}

#[test]
fn byte_lanes_count_a_value_with_distinct_lanes() {
    let small = SmallTable::build();
    let num = Sample::W32(0x0103_070f);
    assert_eq!(count_ones_memo_1(&small, num), 1 + 2 + 3 + 4);
    assert_eq!(count_ones_memo_2(&small, num), 1 + 2 + 3 + 4);
    let half = Sample::W16(0x070f);
    assert_eq!(count_ones_memo_1(&small, half), 3 + 4);
    assert_eq!(count_ones_memo_2(&small, half), 3 + 4);
}

#[test]
fn primitive_does_not_hand_back_its_argument() {
    assert_eq!(inbuilt_count_ones(Sample::W16(200)), 3);
    assert_eq!(inbuilt_count_ones(Sample::W32(7)), 3);
}
