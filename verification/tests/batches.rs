use popcount_lab::batch::{pattern_sample, sample_of_bits};
use popcount_lab::{generate_batch, get_rand_arr, Distribution, DomainViolation, Sample, Width};

#[test]
fn widths_know_their_bits_lanes_and_maximum() {
    assert_eq!(Width::W16.bits(), 16);
    assert_eq!(Width::W32.bits(), 32);
    assert_eq!(Width::W16.lanes(), 2);
    assert_eq!(Width::W32.lanes(), 4);
    assert_eq!(Width::W16.max_value(), 0xffff);
    assert_eq!(Width::W32.max_value(), 0xffff_ffff);
}

#[test]
fn samples_know_their_width_and_value() {
    assert_eq!(Sample::W16(7).width(), Width::W16);
    assert_eq!(Sample::W32(7).width(), Width::W32);
    assert_eq!(Sample::W16(0xbeef).value(), 0xbeef);
    assert_eq!(Sample::W32(0xdead_beef).value(), 0xdead_beef);
}

#[test]
fn a_sample_is_made_of_a_value_that_fits() {
    assert_eq!(Sample::new(0, Width::W16), Ok(Sample::W16(0)));
    assert_eq!(Sample::new(0xffff, Width::W16), Ok(Sample::W16(0xffff)));
    assert_eq!(Sample::new(0xffff, Width::W32), Ok(Sample::W32(0xffff)));
    assert_eq!(Sample::new(0xffff_ffff, Width::W32), Ok(Sample::W32(0xffff_ffff)));
}

#[test]
fn a_value_too_wide_for_sixteen_bits_is_refused() {
    assert_eq!(
        Sample::new(0x1_0000, Width::W16),
        Err(DomainViolation { value: 0x1_0000, width: Width::W16 })
    );
    assert_eq!(
        Sample::new(0xffff_ffff, Width::W16),
        Err(DomainViolation { value: 0xffff_ffff, width: Width::W16 })
    );
}

#[test]
fn ascending_batch_counts_up_from_zero() {
    let batch = generate_batch(Distribution::Ascending, 5, Width::W32);
    assert_eq!(
        batch,
        vec![Sample::W32(0), Sample::W32(1), Sample::W32(2), Sample::W32(3), Sample::W32(4)]
    );
    let narrow = generate_batch(Distribution::Ascending, 3, Width::W16);
    assert_eq!(narrow, vec![Sample::W16(0), Sample::W16(1), Sample::W16(2)]);
}

#[test]
fn ascending_batch_wraps_round_at_sixteen_bits() {
    let batch = generate_batch(Distribution::Ascending, 65538, Width::W16);
    assert_eq!(batch.len(), 65538);
    assert_eq!(batch[65535], Sample::W16(0xffff));
    assert_eq!(batch[65536], Sample::W16(0));
    assert_eq!(batch[65537], Sample::W16(1));
}

#[test]
fn descending_batch_stays_below_the_maximum() {
    let batch = generate_batch(Distribution::DescendingMod255, 257, Width::W32);
    assert_eq!(batch[0], Sample::W32(0xffff_ffff));
    assert_eq!(batch[1], Sample::W32(0xffff_fffe));
    assert_eq!(batch[254], Sample::W32(0xffff_ffff - 254));
    assert_eq!(batch[255], Sample::W32(0xffff_ffff));
    assert_eq!(batch[256], Sample::W32(0xffff_fffe));
    let narrow = generate_batch(Distribution::DescendingMod255, 256, Width::W16);
    assert_eq!(narrow[0], Sample::W16(0xffff));
    assert_eq!(narrow[254], Sample::W16(0xffff - 254));
    assert_eq!(narrow[255], Sample::W16(0xffff));
}

#[test]
fn small_batch_repeats_after_two_hundred_and_fifty_five() {
    let batch = generate_batch(Distribution::AscendingMod255, 257, Width::W32);
    assert_eq!(batch[0], Sample::W32(0));
    assert_eq!(batch[254], Sample::W32(254));
    assert_eq!(batch[255], Sample::W32(0));
    assert_eq!(batch[256], Sample::W32(1));
    let narrow = generate_batch(Distribution::AscendingMod255, 256, Width::W16);
    assert_eq!(narrow[254], Sample::W16(254));
    assert_eq!(narrow[255], Sample::W16(0));
}

#[test]
fn pattern_samples_one_by_one() {
    assert_eq!(pattern_sample(Distribution::Ascending, Width::W32, 9), Sample::W32(9));
    assert_eq!(pattern_sample(Distribution::Ascending, Width::W16, 65536 + 9), Sample::W16(9));
    assert_eq!(
        pattern_sample(Distribution::DescendingMod255, Width::W16, 300),
        Sample::W16(0xffff - 45)
    );
    assert_eq!(pattern_sample(Distribution::AscendingMod255, Width::W32, 300), Sample::W32(45));
}

#[test]
fn empty_batches_are_empty() {
    assert!(generate_batch(Distribution::Random, 0, Width::W16).is_empty());
    assert!(generate_batch(Distribution::Ascending, 0, Width::W32).is_empty());
    assert!(get_rand_arr(0, Width::W32).is_empty());
}

#[test]
fn random_batch_has_the_length_and_the_width_asked_for() {
    let wide = generate_batch(Distribution::Random, 1000, Width::W32);
    assert_eq!(wide.len(), 1000);
    assert!(wide.iter().all(|num| num.width() == Width::W32));
    let narrow = get_rand_arr(1000, Width::W16);
    assert_eq!(narrow.len(), 1000);
    assert!(narrow.iter().all(|num| num.width() == Width::W16));
    assert!(narrow.iter().any(|num| *num != narrow[0]));
}

#[test]
fn random_bits_are_cut_down_to_the_width() {
    assert_eq!(sample_of_bits(0xdead_beef, Width::W32), Sample::W32(0xdead_beef));
    assert_eq!(sample_of_bits(0xdead_beef, Width::W16), Sample::W16(0xbeef));
    assert_eq!(sample_of_bits(0x0001_0000, Width::W16), Sample::W16(0));
}
