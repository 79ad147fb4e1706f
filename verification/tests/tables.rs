use popcount_lab::table::{build_by_doubling, build_by_primitive, SMALL_TABLE_BITS};
use popcount_lab::{
    mesure_time_to_create_memoization_array_inbuilt, mesure_time_to_create_memoization_array_mine,
    AllocationInfeasible, FullTable, SmallTable, Tables, Width, MAX_TABLE_BITS,
};

#[test]
fn small_table_holds_the_count_of_every_byte() {
    let small = SmallTable::build();
    assert_eq!(small.entries().len(), 256);
    for index in 0..=255u8 {
        assert_eq!(small.get(index), index.count_ones() as u8);
        assert_eq!(small.entries()[index as usize], index.count_ones() as u8);
    }
}

#[test]
fn small_table_obeys_the_halving_recurrence_everywhere() {
    let small = SmallTable::build();
    let table = small.entries();
    assert_eq!(table[0], 0);
    for i in 1..table.len() {
        assert_eq!(table[i], (i & 1) as u8 + table[i >> 1]);
    }
}

#[test]
fn full_table_obeys_the_halving_recurrence_on_samples() {
    let full = FullTable::build(Width::W16).unwrap();
    let table = full.entries();
    assert_eq!(table.len(), 1 << 16);
    let mut i: usize = 1;
    while i < table.len() {
        assert_eq!(table[i], (i & 1) as u8 + table[i >> 1]);
        i += 97;
    }
    assert_eq!(table[65535], 1 + table[32767]);
}

#[test]
fn tables_obey_the_doubling_recurrence() {
    let table = build_by_doubling(10).unwrap();
    assert_eq!(table[0], 0);
    assert_eq!(table[1], 1);
    let mut p: usize = 2;
    while p < table.len() {
        for i in p..2 * p {
            assert_eq!(table[i], 1 + table[i - p]);
        }
        p *= 2;
    }
}

#[test]
fn doubling_builds_every_feasible_size() {
    for bits in 0..=MAX_TABLE_BITS {
        let table = build_by_doubling(bits).unwrap();
        assert_eq!(table.len(), 1usize << bits);
        for (index, entry) in table.iter().enumerate() {
            assert_eq!(*entry, index.count_ones() as u8);
        }
    }
}

#[test]
fn the_smallest_tables_are_exact() {
    assert_eq!(build_by_doubling(0), Ok(vec![0]));
    assert_eq!(build_by_doubling(1), Ok(vec![0, 1]));
    assert_eq!(build_by_doubling(2), Ok(vec![0, 1, 1, 2]));
    assert_eq!(build_by_doubling(3), Ok(vec![0, 1, 1, 2, 1, 2, 2, 3]));
    assert_eq!(build_by_primitive(3), Ok(vec![0, 1, 1, 2, 1, 2, 2, 3]));
}

#[test]
fn both_builders_give_the_same_table() {
    for bits in 0..=MAX_TABLE_BITS {
        assert_eq!(build_by_doubling(bits), build_by_primitive(bits));
    }
    let doubled = FullTable::build(Width::W16).unwrap();
    let asked = FullTable::build_by_primitive(Width::W16).unwrap();
    assert_eq!(doubled.entries(), asked.entries());
    assert_eq!(doubled.width(), Width::W16);
    assert_eq!(asked.width(), Width::W16);
}

#[test]
fn building_twice_gives_the_same_table() {
    let first = SmallTable::build();
    let second = SmallTable::build();
    assert_eq!(first.entries(), second.entries());
    let full_first = FullTable::build(Width::W16).unwrap();
    let full_second = FullTable::build(Width::W16).unwrap();
    assert_eq!(full_first.entries(), full_second.entries());
}

#[test]
fn a_domain_beyond_the_ceiling_is_refused() {
    assert_eq!(MAX_TABLE_BITS, 16);
    assert_eq!(SMALL_TABLE_BITS, 8);
    assert_eq!(build_by_doubling(17), Err(AllocationInfeasible { bits: 17 }));
    assert_eq!(build_by_doubling(32), Err(AllocationInfeasible { bits: 32 }));
    assert_eq!(build_by_doubling(u32::MAX), Err(AllocationInfeasible { bits: u32::MAX }));
    assert_eq!(build_by_primitive(17), Err(AllocationInfeasible { bits: 17 }));
    assert_eq!(build_by_primitive(64), Err(AllocationInfeasible { bits: 64 }));
}

#[test]
fn the_full_table_for_thirty_two_bits_is_refused() {
    match FullTable::build(Width::W32) {
        Ok(_) => panic!("a table over 32 bits was built"),
        Err(refused) => assert_eq!(refused, AllocationInfeasible { bits: 32 }),
    }
    match FullTable::build_by_primitive(Width::W32) {
        Ok(_) => panic!("a table over 32 bits was built"),
        Err(refused) => assert_eq!(refused, AllocationInfeasible { bits: 32 }),
    }
}

#[test]
fn tables_hold_the_full_table_only_where_it_is_feasible() {
    let sixteen = Tables::build(Width::W16);
    assert_eq!(sixteen.small.entries().len(), 256);
    match &sixteen.full {
        Some(full) => {
            assert_eq!(full.width(), Width::W16);
            assert_eq!(full.entries().len(), 65536);
        },
        None => panic!("the table over 16 bits is missing"),
    }
    let thirty_two = Tables::build(Width::W32);
    assert_eq!(thirty_two.small.entries().len(), 256);
    assert!(thirty_two.full.is_none());
}

#[test]
fn timed_builds_give_finished_tables() {
    let (mine, _) = mesure_time_to_create_memoization_array_mine(Width::W16).unwrap();
    let (inbuilt, _) = mesure_time_to_create_memoization_array_inbuilt(Width::W16).unwrap();
    assert_eq!(mine.entries().len(), 65536);
    assert_eq!(mine.entries(), inbuilt.entries());
    assert_eq!(mine.get(0xffff), 16);
    assert_eq!(inbuilt.get(0x0101), 2);
}

#[test]
fn timed_builds_refuse_thirty_two_bits() {
    match mesure_time_to_create_memoization_array_mine(Width::W32) {
        Ok(_) => panic!("a table over 32 bits was built"),
        Err(refused) => assert_eq!(refused, AllocationInfeasible { bits: 32 }),
    }
    match mesure_time_to_create_memoization_array_inbuilt(Width::W32) {
        Ok(_) => panic!("a table over 32 bits was built"),
        Err(refused) => assert_eq!(refused, AllocationInfeasible { bits: 32 }),
    }
}
