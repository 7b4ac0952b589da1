use stl_rs::order::sorted_order;
use stl_rs::error::push_decimal;
use stl_rs::{Degree, Error, ErrorKind, Mstl, MstlParams, SmoothingSpec, Stl, StlParams, STL};

#[test]
fn order_by_period() {
    assert_eq!(sorted_order(&[6, 10]), vec![0, 1]);
    assert_eq!(sorted_order(&[10, 6]), vec![1, 0]);
    assert_eq!(sorted_order(&[24, 7, 168, 12]), vec![1, 3, 0, 2]);
    assert_eq!(sorted_order(&[]), Vec::<usize>::new());
    assert_eq!(sorted_order(&[5]), vec![0]);
}

#[test]
fn order_keeps_equal_periods_as_listed() {
    assert_eq!(sorted_order(&[7, 7, 7]), vec![0, 1, 2]);
    assert_eq!(sorted_order(&[9, 7, 9, 7]), vec![1, 3, 0, 2]);
}

#[test]
fn order_is_a_sorted_permutation() {
    let mut state: u64 = 12345;
    for len in 0usize..25 {
        for _ in 0..20 {
            let periods: Vec<usize> = (0..len)
                .map(|_| {
                    state = state.wrapping_mul(6364136223846793005).wrapping_add(1442695040888963407);
                    (state >> 60) as usize
                })
                .collect();
            let order = sorted_order(&periods);
            let mut seen = order.clone();
            seen.sort();
            assert_eq!(seen, (0..len).collect::<Vec<usize>>());
            for pair in order.windows(2) {
                let (a, b) = (pair[0], pair[1]);
                assert!(periods[a] < periods[b] || (periods[a] == periods[b] && a < b));
            }
        }
    }
}

#[test]
fn default_plan_for_two_periods() {
    let plan = Mstl::plan(30, &[6, 10]).unwrap();
    assert_eq!(plan.nobs, 30);
    assert_eq!(plan.passes, 2);
    assert_eq!(plan.components(), 2);
    assert_eq!(plan.fits.len(), 2);
    assert_eq!(plan.fits[0].slot, 0);
    assert_eq!(plan.fits[0].stl.period, 6);
    assert_eq!(
        plan.fits[0].stl.seasonal,
        SmoothingSpec { length: 11, degree: Degree::Constant, jump: 2 }
    );
    assert_eq!(
        plan.fits[0].stl.trend,
        SmoothingSpec { length: 11, degree: Degree::Linear, jump: 2 }
    );
    assert_eq!(
        plan.fits[0].stl.low_pass,
        SmoothingSpec { length: 7, degree: Degree::Linear, jump: 1 }
    );
    assert_eq!(plan.fits[1].slot, 1);
    assert_eq!(plan.fits[1].stl.period, 10);
    assert_eq!(
        plan.fits[1].stl.seasonal,
        SmoothingSpec { length: 15, degree: Degree::Constant, jump: 2 }
    );
    assert_eq!(
        plan.fits[1].stl.trend,
        SmoothingSpec { length: 17, degree: Degree::Linear, jump: 2 }
    );
    assert_eq!(
        plan.fits[1].stl.low_pass,
        SmoothingSpec { length: 11, degree: Degree::Linear, jump: 2 }
    );
    assert_eq!(plan.fits[0].stl.inner_loops, 5);
    assert_eq!(plan.fits[0].stl.outer_loops, 0);
    assert!(!plan.restores(0));
    assert!(plan.restores(1));
}

#[test]
fn listing_the_periods_the_other_way_round_exchanges_the_slots() {
    let ab = Mstl::plan(30, &[6, 10]).unwrap();
    let ba = Mstl::plan(30, &[10, 6]).unwrap();
    assert_eq!(ab.passes, ba.passes);
    for rank in 0..2 {
        assert_eq!(ab.fits[rank].stl, ba.fits[rank].stl);
        assert_eq!(ab.fits[rank].slot + ba.fits[rank].slot, 1);
    }
}

#[test]
fn any_listing_of_the_same_periods_gives_the_same_fits() {
    let listings: [[usize; 3]; 6] =
        [[4, 7, 12], [4, 12, 7], [7, 4, 12], [7, 12, 4], [12, 4, 7], [12, 7, 4]];
    let first = Mstl::plan(60, &listings[0]).unwrap();
    for listing in listings.iter() {
        let plan = Mstl::plan(60, listing).unwrap();
        assert_eq!(plan.passes, first.passes);
        let mut slots = Vec::new();
        for rank in 0..3 {
            assert_eq!(plan.fits[rank].stl, first.fits[rank].stl);
            assert_eq!(listing[plan.fits[rank].slot], first.fits[rank].stl.period);
            slots.push(plan.fits[rank].slot);
        }
        slots.sort();
        assert_eq!(slots, vec![0, 1, 2]);
    }
}

#[test]
fn one_period_is_passed_over_once() {
    let plan = Mstl::plan(30, &[7]).unwrap();
    assert_eq!(plan.passes, 1);
    assert_eq!(plan.fits[0].stl.seasonal.length, 11);
    let mut params = Mstl::params();
    params.iterations(5);
    assert_eq!(params.plan(30, &[7]).unwrap().passes, 1);
    assert_eq!(params.plan(30, &[7, 5]).unwrap().passes, 5);
}

#[test]
fn chosen_seasonal_window_is_used_for_every_period() {
    let mut single = Stl::params();
    single.seasonal_length(7).robust(true);
    let mut params = Mstl::params();
    params.stl_params(single);
    let plan = params.plan(30, &[10, 6]).unwrap();
    assert_eq!(plan.fits[0].stl.seasonal.length, 7);
    assert_eq!(plan.fits[1].stl.seasonal.length, 7);
    assert_eq!(plan.fits[0].stl, single.plan(30, 6).unwrap());
    assert_eq!(plan.fits[1].stl, single.plan(30, 10).unwrap());
    assert!(plan.fits[0].stl.robust);
}

#[test]
fn refusals() {
    assert_eq!(
        Mstl::plan(30, &[]).unwrap_err(),
        Error::Parameter("periods must not be empty".to_string())
    );
    assert_eq!(
        Mstl::plan(30, &[1]).unwrap_err(),
        Error::Parameter("periods must be at least 2".to_string())
    );
    assert_eq!(
        Mstl::plan(30, &[6, 0, 40]).unwrap_err(),
        Error::Parameter("periods must be at least 2".to_string())
    );
    assert_eq!(
        Mstl::plan(30, &[16]).unwrap_err(),
        Error::Series("series has less than two periods".to_string())
    );
    assert_eq!(
        Mstl::plan(30, &[6, 16]).unwrap_err(),
        Error::Series("series has less than two periods".to_string())
    );
    let mut single = StlParams::new();
    single.seasonal_degree(2);
    let mut params = MstlParams::new();
    params.stl_params(single);
    assert_eq!(
        params.plan(30, &[6, 10]).unwrap_err(),
        Error::Parameter("seasonal_degree must be 0 or 1".to_string())
    );
    // the periods are checked before the single decompositions
    assert_eq!(
        params.plan(30, &[6, 16]).unwrap_err(),
        Error::Series("series has less than two periods".to_string())
    );
}

#[test]
fn a_refusal_does_not_depend_on_the_listing() {
    for listing in [[6usize, 16], [16, 6]] {
        assert_eq!(
            Mstl::plan(30, &listing).unwrap_err(),
            Error::Series("series has less than two periods".to_string())
        );
    }
    for listing in [[6usize, 1], [1, 6]] {
        assert_eq!(
            Mstl::plan(30, &listing).unwrap_err(),
            Error::Parameter("periods must be at least 2".to_string())
        );
    }
}

#[test]
fn model_needs_a_period() {
    let r = STL::new(30, None, 7, None, None, 1, 1, 1, false, Some(1), Some(1), Some(1));
    assert_eq!(
        r.unwrap_err(),
        Error::Parameter("Period must be specified for ndarray input".to_string())
    );
}

#[test]
fn model_needs_two_cycles() {
    let r = STL::new(13, Some(7), 7, None, None, 1, 1, 1, false, Some(1), Some(1), Some(1));
    assert_eq!(
        r.unwrap_err(),
        Error::Series(
            "endog must have 2 complete cycles requires 14 observations. endog only has 13 observation(s)"
                .to_string()
        )
    );
    let r = STL::new(14, Some(7), 7, None, None, 1, 1, 1, false, Some(1), Some(1), Some(1));
    assert!(r.is_ok());
}

#[test]
fn model_of_three_observations_with_period_two() {
    let r = STL::new(3, Some(2), 7, None, None, 1, 1, 1, false, Some(1), Some(1), Some(1));
    let e = r.unwrap_err();
    assert_eq!(
        e.message(),
        "endog must have 2 complete cycles requires 4 observations. endog only has 3 observation(s)"
    );
    assert_eq!(e.kind(), ErrorKind::Series);
}

#[test]
fn model_refusal_names_the_numbers() {
    let r = STL::new(0, Some(1), 7, None, None, 1, 1, 1, false, None, None, None);
    assert_eq!(
        r.unwrap_err().message(),
        "endog must have 2 complete cycles requires 2 observations. endog only has 0 observation(s)"
    );
    let r = STL::new(1999, Some(1000), 7, None, None, 1, 1, 1, false, None, None, None);
    assert_eq!(
        r.unwrap_err().message(),
        "endog must have 2 complete cycles requires 2000 observations. endog only has 1999 observation(s)"
    );
    // twice the period is written out even where it is more than can be counted in a series
    let r = STL::new(5, Some(usize::MAX), 7, None, None, 1, 1, 1, false, None, None, None);
    assert_eq!(
        r.unwrap_err().message(),
        format!(
            "endog must have 2 complete cycles requires {} observations. endog only has 5 observation(s)",
            2 * usize::MAX as u128
        )
    );
    assert_eq!(
        Error::too_few_cycles(30, 16),
        Error::Series(
            "endog must have 2 complete cycles requires 32 observations. endog only has 30 observation(s)"
                .to_string()
        )
    );
}

#[test]
fn numbers_in_decimal() {
    for n in [0u128, 1, 9, 10, 11, 99, 100, 101, 1234567890, u64::MAX as u128, u128::MAX] {
        let mut text = String::from("n = ");
        push_decimal(&mut text, n);
        assert_eq!(text, format!("n = {}", n));
    }
}

#[test]
fn model_getters() {
    let m = STL::new(30, Some(7), 9, None, None, 1, 1, 1, false, None, None, None).unwrap();
    assert_eq!(m.period(), 7);
    assert_eq!(m.nobs(), 30);
    assert_eq!(m.seasonal(), 9);
}

#[test]
fn model_settles_every_option() {
    let m = STL::new(30, Some(7), 7, None, None, 1, 1, 1, false, None, None, None).unwrap();
    let p = m.params(None, None);
    assert_eq!(p.seasonal_length, Some(7));
    assert_eq!(p.trend_length, Some(15));
    assert_eq!(p.low_pass_length, Some(7));
    assert_eq!(p.seasonal_degree, 1);
    assert_eq!(p.trend_degree, 1);
    assert_eq!(p.low_pass_degree, Some(1));
    assert_eq!(p.seasonal_jump, Some(1));
    assert_eq!(p.trend_jump, Some(1));
    assert_eq!(p.low_pass_jump, Some(1));
    assert_eq!(p.inner_loops, Some(5));
    assert_eq!(p.outer_loops, Some(0));
    assert!(!p.robust);
    let plan = m.plan(None, None).unwrap();
    assert_eq!(plan, p.plan(30, 7).unwrap());
    assert_eq!(plan.trend, SmoothingSpec { length: 15, degree: Degree::Linear, jump: 1 });
}

#[test]
fn model_with_chosen_options() {
    let m = STL::new(48, Some(12), 13, Some(25), Some(15), 0, 0, 0, true, Some(2), Some(3), Some(4))
        .unwrap();
    let p = m.params(None, None);
    assert_eq!(p.seasonal_length, Some(13));
    assert_eq!(p.trend_length, Some(25));
    assert_eq!(p.low_pass_length, Some(15));
    assert_eq!(p.seasonal_degree, 0);
    assert_eq!(p.low_pass_degree, Some(0));
    assert_eq!(p.seasonal_jump, Some(2));
    assert_eq!(p.trend_jump, Some(3));
    assert_eq!(p.low_pass_jump, Some(4));
    assert_eq!(p.inner_loops, Some(2));
    assert_eq!(p.outer_loops, Some(15));
    assert!(p.robust);
    let p = m.params(Some(4), Some(6));
    assert_eq!(p.inner_loops, Some(4));
    assert_eq!(p.outer_loops, Some(6));
}

#[test]
fn model_derives_windows_from_the_period() {
    let m = STL::new(48, Some(12), 7, None, None, 1, 1, 1, false, None, None, None).unwrap();
    let p = m.params(None, None);
    // 3 * 12 * 7 / 11 = 22.9, rounded up to 23
    assert_eq!(p.trend_length, Some(23));
    assert_eq!(p.low_pass_length, Some(13));
    let m = STL::new(48, Some(12), 1, None, None, 1, 1, 1, false, None, None, None).unwrap();
    assert_eq!(m.params(None, None).trend_length, Some(3));
}

#[test]
fn model_with_a_bad_degree_fails_at_planning() {
    let m = STL::new(30, Some(7), 7, None, None, 2, 1, 1, false, None, None, None).unwrap();
    assert_eq!(
        m.plan(None, None).unwrap_err(),
        Error::Parameter("seasonal_degree must be 0 or 1".to_string())
    );
    let m = STL::new(30, Some(1), 7, None, None, 1, 1, 1, false, None, None, None).unwrap();
    assert_eq!(
        m.plan(None, None).unwrap_err(),
        Error::Parameter("period must be at least 2".to_string())
    );
}

#[test]
fn plans_for_several_periods_are_checked() {
    let plan = Mstl::plan(30, &[6, 10]).unwrap();
    assert!(plan.is_valid());
    let mut other = plan.clone();
    assert_eq!(other.fits, plan.fits);
    assert_eq!(other.passes, plan.passes);
    assert_eq!(other.nobs, plan.nobs);
    other.fits[1].slot = 2;
    assert!(!other.is_valid());
    let mut longer = plan.clone();
    longer.nobs = 31;
    assert!(!longer.is_valid());
    let mut bare = plan.clone();
    bare.fits.clear();
    assert!(!bare.is_valid());
}
