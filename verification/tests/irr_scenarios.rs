use finrate::irr::{candidate_real_bits, has_candidate_root, index_of_first_min, Root};
use finrate::polynomial::prepare_polynomial;
use roots::{find_roots_sturm, SimpleConvergency};

/// Computes the internal rate of return of a chronological cash-flow
/// sequence: the library prepares the polynomial and selects among the
/// candidates, while the floating-point work (root extraction and the rate
/// transform) happens here.
fn irr_of(cashflows: &[f64]) -> Option<f64> {
    let flow_bits: Vec<u64> = cashflows.iter().map(|f| f.to_bits()).collect();
    let poly = prepare_polynomial(&flow_bits)?;
    let lead = f64::from_bits(poly[0]);
    let monic_tail: Vec<f64> = poly[1..].iter().map(|&b| f64::from_bits(b) / lead).collect();
    let mut conv = SimpleConvergency { eps: 1e-12f64, max_iter: 100 };
    let root_list: Vec<Root> = find_roots_sturm(&monic_tail, &mut conv)
        .iter()
        .filter_map(|s| s.as_ref().ok())
        .map(|x| Root { re_bits: x.to_bits(), im_bits: 0f64.to_bits() })
        .collect();
    if !has_candidate_root(&root_list) {
        return None;
    }
    let rates: Vec<f64> = candidate_real_bits(&root_list)
        .iter()
        .map(|&b| 1.0 / f64::from_bits(b) - 1.0)
        .collect();
    let keys: Vec<u64> = rates.iter().map(|r| r.abs().to_bits()).collect();
    let chosen = index_of_first_min(&keys)?;
    Some(rates[chosen])
}

#[test]
fn test_irr() {
    let rate = irr_of(&[-100.0, 39.0, 59.0, 55.0, 20.0]).unwrap();
    assert_eq!(format!("{:.5}", rate), "0.28095");

    let rate = irr_of(&[-100.0, 0.0, 0.0, 74.0]).unwrap();
    assert_eq!(format!("{:.5}", rate), "-0.09550");

    let rate = irr_of(&[-100.0, 100.0, 0.0, -7.0]).unwrap();
    assert_eq!(format!("{:.5}", rate), "-0.08330");

    let rate = irr_of(&[-100.0, 100.0, 0.0, 7.0]).unwrap();
    assert_eq!(format!("{:.5}", rate), "0.06206");

    let rate = irr_of(&[-5.0, 10.5, 1.0, -8.0, 1.0]).unwrap();
    assert_eq!(format!("{:.5}", rate), "0.08860");

    let rate = irr_of(&[-123400.0, 36200.0, 54800.0, 48100.0]).unwrap();
    assert_eq!(format!("{:.4}", rate), "0.0596");
}

#[test]
fn irr_rate_zeroes_discounted_sum() {
    let cashflows = [-100.0, 39.0, 59.0, 55.0, 20.0];
    let rate = irr_of(&cashflows).unwrap();
    let mut npv = 0.0f64;
    for (i, cf) in cashflows.iter().enumerate() {
        npv += cf / (1.0 + rate).powi(i as i32);
    }
    assert!(npv.abs() < 1e-6, "discounted sum was {}", npv);

    let cashflows = [-123400.0, 36200.0, 54800.0, 48100.0];
    let rate = irr_of(&cashflows).unwrap();
    let mut npv = 0.0f64;
    for (i, cf) in cashflows.iter().enumerate() {
        npv += cf / (1.0 + rate).powi(i as i32);
    }
    assert!(npv.abs() < 1e-4, "discounted sum was {}", npv);
}

#[test]
fn irr_all_positive_flows_has_no_solution() {
    assert_eq!(irr_of(&[10.0, 20.0, 30.0]), None);
    assert_eq!(irr_of(&[1.0, 1.0, 1.0, 1.0, 1.0]), None);
}

#[test]
fn irr_all_negative_flows_has_no_solution() {
    assert_eq!(irr_of(&[-10.0, -20.0, -30.0]), None);
}

#[test]
fn irr_short_or_degenerate_input_has_no_solution() {
    assert_eq!(irr_of(&[]), None);
    assert_eq!(irr_of(&[-100.0]), None);
    assert_eq!(irr_of(&[0.0, 0.0, 0.0]), None);
}

#[test]
fn irr_two_periods_matches_direct_formula() {
    // One outlay of 100 returning 110 a period later earns ten percent.
    let rate = irr_of(&[-100.0, 110.0]).unwrap();
    assert!((rate - 0.10).abs() < 1e-12, "rate was {}", rate);
}

#[test]
fn irr_ignores_trailing_zero_flows() {
    // Zero flows at the end add zero leading coefficients and nothing else.
    let plain = irr_of(&[-100.0, 39.0, 59.0, 55.0, 20.0]).unwrap();
    let padded = irr_of(&[-100.0, 39.0, 59.0, 55.0, 20.0, 0.0, 0.0]).unwrap();
    assert_eq!(plain, padded);
}
