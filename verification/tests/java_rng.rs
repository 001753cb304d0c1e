use slime_seed_finder::java_rng::lcg_const;
use slime_seed_finder::java_rng::lcg_const_extra;
use slime_seed_finder::java_rng::{
    distance_between_rngs, distance_between_rngs_less_than, mask, mod_inv, pow_wrapping, JavaRng,
};

#[test]
fn mask_keeps_low_bits() {
    let fifteen = 0b1111;
    assert_eq!(fifteen & mask(0), 0b0000);
    assert_eq!(fifteen & mask(1), 0b0001);
    assert_eq!(fifteen & mask(2), 0b0011);
    assert_eq!(fifteen & mask(3), 0b0111);
    assert_eq!(fifteen & mask(4), 0b1111);
    assert_eq!(mask(48), 0xFFFF_FFFF_FFFF);
    assert_eq!(mask(63), u64::MAX >> 1);
}

#[test]
fn seed_set_get() {
    let mut r = JavaRng::with_raw_seed(1234);
    assert_eq!(r.get_seed(), 1234 ^ lcg_const::A);
    r.set_seed(lcg_const::A);
    assert_eq!(r.get_seed(), lcg_const::A);
    assert_eq!(r.get_raw_seed(), 0);
    r.set_seed(1 << 48); // 2^48 wraps back to 0
    assert_eq!(r.get_seed(), 0);
}

#[test]
fn next_test() {
    let mut r = JavaRng::with_seed(12345);
    let i = r.next(32);
    assert_eq!(i, r.last_next(32));
}

#[test]
fn previous() {
    let mut r = JavaRng::with_seed(12345);
    r.set_seed(12345);
    r.next_int();
    r.previous();
    assert_eq!(r.get_seed(), 12345);
}

#[test]
fn long_from_ints() {
    let mut r = JavaRng::with_seed(12345);
    let l = r.next_long();
    r.set_seed(12345);
    let i0 = r.next_int();
    let i1 = r.next_int();
    let i = JavaRng::long_from_i0_i1(i0, i1);
    assert_eq!(l, i);
    let (j0, j1) = JavaRng::ints_from_long(l);
    assert_eq!(i0, j0);
    assert_eq!(i1, j1);
}

#[test]
fn create_from_long() {
    let mut r = JavaRng::with_raw_seed(12345);
    let l = r.next_long();
    let rs = JavaRng::create_from_long(l as u64);
    assert_eq!(rs.unwrap().get_raw_seed(), 12345);
}

#[test]
fn next_long_and_bounded_draws_of_a_known_seed() {
    let mut r = JavaRng::with_seed(12345);
    let l = r.next_long();
    assert_eq!(l, 6674089274190705457);
    r.set_seed(12345);
    let b = r.next_boolean();
    assert_eq!(b, false);
    r.set_seed(12345);
    let i = r.next_int_n(10);
    assert_eq!(i, 1);
    r.set_seed(12345);
    let i = r.next_int_n(16);
    assert_eq!(i, 5);
}

#[test]
fn previous_calls_black_magic() {
    let mut r = JavaRng::with_seed(12345);
    r.previous();
    let c0 = r.get_seed();
    r.previous();
    let c1 = r.get_seed();
    r.set_seed(12345);
    r.previous_n_calls(1);
    let p0 = r.get_seed();
    r.set_seed(12345);
    r.previous_n_calls(2);
    let p1 = r.get_seed();

    assert_eq!(c0, p0);
    assert_eq!(c1, p1);

    r.set_seed(12345);
    for _ in 0..1000 {
        r.previous();
    }
    let p2 = r.get_seed();
    r.set_seed(12345);
    r.previous_n_calls(1000);
    let p3 = r.get_seed();
    assert_eq!(p2, p3);

    r.set_seed(12345);
    r.previous_n_calls(1 << 48);
    assert_eq!(r.get_seed(), 12345);
}

#[test]
fn next_calls_black_magic() {
    let mut r = JavaRng::with_seed(12345);
    r.next_int();
    let c0 = r.get_seed();
    r.next_int();
    let c1 = r.get_seed();
    r.set_seed(12345);
    r.next_n_calls(1);
    let p0 = r.get_seed();
    r.set_seed(12345);
    r.next_n_calls(2);
    let p1 = r.get_seed();

    assert_eq!(c0, p0);
    assert_eq!(c1, p1);

    r.set_seed(12345);
    for _ in 0..1000 {
        r.next_int();
    }
    let p2 = r.get_seed();
    r.set_seed(12345);
    r.next_n_calls(1000);
    let p3 = r.get_seed();
    assert_eq!(p2, p3);

    r.set_seed(12345);
    r.next_n_calls(1 << 48);
    assert_eq!(r.get_seed(), 12345);
}

#[test]
fn know_your_constants() {
    assert_eq!(mod_inv(lcg_const::A, 1 << 48), lcg_const_extra::INV_A);
    assert_eq!(
        mod_inv((lcg_const_extra::INV_A - 1) >> 2, 1 << 48),
        lcg_const_extra::INV__INV_A__1
    );
    assert_eq!(
        mod_inv((lcg_const::A - 1) >> 2, 1 << 48),
        lcg_const_extra::INV_A_1
    );
    assert_eq!(2147483640, (1u32 << 31) / 10 * 10);
}

#[test]
fn modulo_bias_next_int_n() {
    let mut r = JavaRng::with_seed(12345678);
    let x = r.next_int_n((1 << 30) + 1);
    assert_eq!(x, 677997345);
}

#[test]
fn next_int_n_10() {
    let s = 1_356_836_617;
    let mut r0 = JavaRng::with_seed(s);
    let mut r1 = r0.clone();
    let x0 = r0.next_int_n(10);
    let x1 = r1.next_int_n_10();
    assert_eq!(x0, 6);
    assert_eq!(x0, x1);

    for target in 2147483630..2147483648 {
        let mut rt = JavaRng::with_raw_seed(target << 17);
        rt.previous();
        let mut rtc = rt.clone();
        assert_eq!((target, rt.next_int_n(10)), (target, rtc.next_int_n_10()));
    }
}

#[test]
fn extend_48_to_64() {
    assert_eq!(
        &JavaRng::extend_long_48(132607203138509),
        &[4400149443144113101]
    );
    assert_eq!(
        &JavaRng::extend_long_48(113453751637441),
        &[6895687433209288129, 955720999684314561]
    );
    assert_eq!(
        &JavaRng::extend_long_48(18021957452394),
        &[3640896845709787754]
    );
    assert_eq!(
        &JavaRng::extend_long_48(131291916928825),
        &[-1095369317440944327i64 as u64]
    );
    assert_eq!(
        &JavaRng::extend_long_48(249127199878301),
        &[5773582374512143517, -166384059012830051i64 as u64]
    );
    assert_eq!(
        &JavaRng::extend_long_48(186701866325681),
        &[3353398099420370609, -2586568334104602959i64 as u64]
    );
}

#[test]
fn test_low_16() {
    let s = 1234;
    let mut r = JavaRng::with_seed(s);

    for _ in 0..1 {
        let i0 = r.next_int();
        let expected = (r.get_raw_seed() & mask(16)) as u16;
        let i1 = r.next_int();
        let ee = JavaRng::low_16_for_next_int(i0 as u32, i1 as u32);
        assert_eq!(ee, Some(expected));
    }
}

#[test]
fn distance_fn0() {
    let r = JavaRng::with_seed(12345);
    assert_eq!(distance_between_rngs(&r, &r), 0);
}

#[test]
fn distance_fn1() {
    let r0 = JavaRng::with_seed(12345);
    let mut r = r0;
    r.next(32);
    assert_eq!(distance_between_rngs(&r0, &r), 1);
}

#[test]
fn distance_fn2() {
    let r0 = JavaRng::with_seed(12345);
    let mut r = r0;
    r.next(32);
    r.next(32);
    assert_eq!(distance_between_rngs(&r0, &r), 2);
}

#[test]
fn distance_fn99() {
    let r0 = JavaRng::with_seed(12345);
    let mut r = r0;
    for _ in 0..99 {
        r.next(32);
    }
    assert_eq!(distance_between_rngs(&r0, &r), 99);
}

#[test]
fn distance_limit_fn99() {
    let r0 = JavaRng::with_seed(12345);
    let mut r = r0;
    for _ in 0..99 {
        r.next(32);
    }
    assert_eq!(distance_between_rngs_less_than(&r0, &r, 100), Some(99));
    assert_eq!(distance_between_rngs_less_than(&r0, &r, 99), None);
    assert_eq!(distance_between_rngs_less_than(&r0, &r, 98), None);
}

#[test]
fn distance_of_equal_states_ignores_the_limit() {
    let r = JavaRng::with_seed(7);
    assert_eq!(distance_between_rngs_less_than(&r, &r, 0), Some(0));
    assert_eq!(r.num_steps_to_other_under_l(&r, 0), Some(0));
    assert_eq!(r.num_steps_to(&r), 0);
}

#[test]
fn distance_backwards_wraps_around_the_period() {
    let r0 = JavaRng::with_seed(12345);
    let mut r = r0;
    r.previous();
    assert_eq!(distance_between_rngs(&r0, &r), (1u64 << 48) - 1);
    assert_eq!(r0.num_steps_to(&r), (1u64 << 48) - 1);
}

#[test]
fn rewinding_undoes_advancing() {
    for &n in &[0u64, 1, 2, 3, 1000, 123456789, (1 << 48) - 1] {
        let mut r = JavaRng::with_seed(987654321);
        r.next_n_calls(n);
        r.previous_n_calls(n);
        assert_eq!(r.get_seed(), 987654321);
        r.previous_n_calls(n);
        r.next_n_calls(n);
        assert_eq!(r.get_seed(), 987654321);
    }
}

#[test]
fn previous_2_is_two_previous() {
    let mut a = JavaRng::with_seed(42);
    let mut b = a;
    a.previous_2();
    b.previous();
    b.previous();
    assert_eq!(a.get_raw_seed(), b.get_raw_seed());
    assert_eq!(JavaRng::previous_state(JavaRng::next_state(42)), 42);
}

#[test]
fn pow_wrapping_exact_values() {
    assert_eq!(pow_wrapping(3, 0), 1);
    assert_eq!(pow_wrapping(3, 1), 3);
    assert_eq!(pow_wrapping(3, 5), 243);
    assert_eq!(pow_wrapping(2, 64), 0);
    assert_eq!(pow_wrapping(2, 63), 1 << 63);
    assert_eq!(pow_wrapping(0, 0), 1);
}

#[test]
fn extend_long_48_contains_the_long_it_came_from() {
    for raw in [0u64, 1, 12345, 0xFFFF_FFFF_FFFF, 0x1234_5678_9ABC] {
        let mut r = JavaRng::with_raw_seed(raw);
        let l = r.next_long() as u64;
        let found = JavaRng::extend_long_48(l & mask(48));
        assert!(found.contains(&l));
        for x in found {
            assert_eq!(x & mask(48), l & mask(48));
        }
    }
}

#[test]
fn previous_verify_16_is_zero_for_the_bits_of_the_previous_state() {
    let mut r = JavaRng::with_raw_seed(0x1234_5678_9ABC);
    r.next_int();
    assert_eq!(r.previous_verify_16(0x5678), 0);
    assert!(r.previous_verify_16(0x5679) != 0);
    assert_eq!(r.previous_verify_n(0x1234_5678, 48), 0);
    assert_eq!(r.previous_verify_n(0x1234_5678, 200), 0);
    assert!(r.previous_verify_n(0x1234_5679, 48) != 0);
    assert_eq!(r.previous_verify_n(0x1234_5679, 0), 0);
}

#[test]
fn next_int_n_of_a_power_of_two_takes_the_top_bits() {
    let mut r = JavaRng::with_seed(12345);
    let mut q = r;
    let bits = q.next(31);
    assert_eq!(r.next_int_n(1 << 4), bits >> 27);
    let mut r = JavaRng::with_seed(12345);
    assert_eq!(r.next_int_n(1), 0);
}

#[test]
fn i0_from_long_corrects_the_borrow() {
    assert_eq!(JavaRng::long_from_i0_i1(5, -1), (5i64 << 32) - 1);
    assert_eq!(JavaRng::i0_from_long((5i64 << 32) - 1), 5);
    assert_eq!(JavaRng::i1_from_long((5i64 << 32) - 1), -1);
    assert_eq!(JavaRng::long_from_i0_i1(i32::MIN, i32::MIN), i64::MAX - (1i64 << 31) + 1);
}
