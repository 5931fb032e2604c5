use record_bench::error::BenchError;
use record_bench::measures::{
    any_not_a_number, float_pass, heights, maximum, mean, measure_extremes, minimum, scaled,
    total, weights, Extremes, INFINITY_BITS, SCALE_BITS, SIGN_BIT,
};
use record_bench::record::{Measure, Record};

fn m(x: f64) -> Measure {
    Measure { bits: x.to_bits() }
}

fn number(measure: Measure) -> f64 {
    f64::from_bits(measure.bits)
}

fn plus(a: Measure, b: Measure) -> Measure {
    m(number(a) + number(b))
}

fn divide(a: Measure, n: usize) -> Measure {
    m(number(a) / n as f64)
}

fn times(a: Measure, b: Measure) -> Measure {
    m(number(a) * number(b))
}

fn close(got: f64, want: f64) -> bool {
    (got - want).abs() <= 1e-9 * want.abs()
}

fn sized(height: f64, weight: f64) -> Record {
    Record::new(
        0,
        String::from("n"),
        30,
        String::from("c"),
        String::from("b"),
        m(height),
        m(weight),
    )
}

fn samples() -> Vec<f64> {
    vec![
        0.0,
        -0.0,
        1.0,
        -1.0,
        1.7,
        1.8,
        -1.7,
        60.0,
        80.0,
        f64::MIN_POSITIVE,
        -f64::MIN_POSITIVE,
        5e-324,
        -5e-324,
        f64::MAX,
        f64::MIN,
        f64::INFINITY,
        f64::NEG_INFINITY,
        1e300,
        -1e300,
        0.1 + 0.2,
        0.3,
    ]
}

#[test]
fn the_two_constants_are_the_sign_and_infinity() {
    assert_eq!(SIGN_BIT, (-0.0f64).to_bits());
    assert_eq!(INFINITY_BITS, f64::INFINITY.to_bits());
}

#[test]
fn rank_orders_numbers_as_the_numbers_are_ordered() {
    for a in samples() {
        for b in samples() {
            let (ra, rb) = (m(a).rank(), m(b).rank());
            assert_eq!(ra < rb, a < b);
            assert_eq!(ra == rb, a == b);
            assert_eq!(ra > rb, a > b);
        }
    }
}

#[test]
fn rank_of_chosen_patterns() {
    assert_eq!(m(0.0).rank(), 0);
    assert_eq!(m(-0.0).rank(), 0);
    assert_eq!(m(1.0).rank(), 0x3FF0_0000_0000_0000);
    assert_eq!(m(-1.0).rank(), -0x3FF0_0000_0000_0000);
    assert_eq!(m(f64::INFINITY).rank(), 0x7FF0_0000_0000_0000);
    assert_eq!(Measure { bits: u64::MAX }.rank(), -0x7FFF_FFFF_FFFF_FFFF);
}

#[test]
fn not_a_number_is_told_from_numbers() {
    for a in samples() {
        assert!(!m(a).not_a_number());
    }
    assert!(m(f64::NAN).not_a_number());
    assert!(m(-f64::NAN).not_a_number());
    assert!(Measure { bits: 0x7FF0_0000_0000_0001 }.not_a_number());
    assert!(Measure { bits: 0xFFF0_0000_0000_0001 }.not_a_number());
    assert!(Measure { bits: u64::MAX }.not_a_number());
    assert!(!Measure { bits: 0x7FF0_0000_0000_0000 }.not_a_number());
    assert!(!Measure { bits: 0xFFF0_0000_0000_0000 }.not_a_number());
    for bits in [0u64, 1, 0x7FEF_FFFF_FFFF_FFFF, 0x7FF8_0000_0000_0000, 0xFFF8_0000_0000_0000] {
        assert_eq!(Measure { bits }.not_a_number(), f64::from_bits(bits).is_nan());
    }
}

#[test]
fn extremes_of_heights() {
    let values: Vec<Measure> = [1.70, 1.80, 1.65, 1.75].iter().map(|x| m(*x)).collect();
    assert_eq!(maximum(&values).map(number), Ok(1.80));
    assert_eq!(minimum(&values).map(number), Ok(1.65));
}

#[test]
fn extremes_agree_with_the_standard_selection() {
    let runs: Vec<Vec<f64>> = vec![
        vec![3.5],
        vec![0.0, -0.0],
        vec![-0.0, 0.0],
        vec![-0.0, 0.0, -0.0, 0.0],
        vec![1.0, 2.0, 2.0, 1.0],
        vec![-1.0, -2.0, -3.0],
        vec![f64::NEG_INFINITY, f64::INFINITY, 0.0],
        samples(),
    ];
    for run in runs {
        let values: Vec<Measure> = run.iter().map(|x| m(*x)).collect();
        let want_max = run.iter().copied().max_by(|a, b| a.partial_cmp(b).unwrap()).unwrap();
        let want_min = run.iter().copied().min_by(|a, b| a.partial_cmp(b).unwrap()).unwrap();
        assert_eq!(maximum(&values).unwrap().bits, want_max.to_bits());
        assert_eq!(minimum(&values).unwrap().bits, want_min.to_bits());
    }
}

#[test]
fn of_equal_maxima_the_last_and_of_equal_minima_the_first() {
    let values = vec![m(0.0), m(-0.0)];
    assert_eq!(maximum(&values), Ok(m(-0.0)));
    assert_eq!(minimum(&values), Ok(m(0.0)));
    let values = vec![m(-0.0), m(0.0)];
    assert_eq!(maximum(&values), Ok(m(0.0)));
    assert_eq!(minimum(&values), Ok(m(-0.0)));
}

#[test]
fn extremes_of_nothing_fail() {
    let none: Vec<Measure> = Vec::new();
    assert_eq!(maximum(&none), Err(BenchError::EmptyCollection));
    assert_eq!(minimum(&none), Err(BenchError::EmptyCollection));
    let records: Vec<Record> = Vec::new();
    assert_eq!(measure_extremes(&records), Err(BenchError::EmptyCollection));
}

#[test]
fn extremes_fail_on_what_is_not_a_number() {
    let values = vec![m(1.0), m(f64::NAN), m(2.0)];
    assert!(any_not_a_number(&values));
    assert_eq!(maximum(&values), Err(BenchError::NotANumber));
    assert_eq!(minimum(&values), Err(BenchError::NotANumber));
    assert_eq!(maximum(&[m(f64::NAN)]), Err(BenchError::NotANumber));
    assert!(!any_not_a_number(&[m(1.0), m(f64::INFINITY)]));
    assert!(!any_not_a_number(&[]));
    let records = vec![sized(1.7, 60.0), sized(1.8, f64::NAN)];
    assert_eq!(measure_extremes(&records), Err(BenchError::NotANumber));
    let records = vec![sized(f64::NAN, 60.0), sized(1.8, 80.0)];
    assert_eq!(measure_extremes(&records), Err(BenchError::NotANumber));
}

#[test]
fn extremes_of_a_collection() {
    let records = vec![sized(1.70, 60.0), sized(1.80, 80.0), sized(1.60, 90.5)];
    assert_eq!(
        measure_extremes(&records),
        Ok(Extremes {
            max_height: m(1.80),
            min_height: m(1.60),
            max_weight: m(90.5),
            min_weight: m(60.0),
        })
    );
    assert_eq!(heights(&records), vec![m(1.70), m(1.80), m(1.60)]);
    assert_eq!(weights(&records), vec![m(60.0), m(80.0), m(90.5)]);
}

#[test]
fn the_scale_factor_is_one_and_a_tenth() {
    assert_eq!(SCALE_BITS, 1.1f64.to_bits());
}

#[test]
fn total_adds_in_order_from_the_first() {
    let values = vec![m(1e16), m(1.0), m(-1e16), m(1.0)];
    assert_eq!(total(&values, &plus).map(number), Ok(((1e16 + 1.0) + -1e16) + 1.0));
    assert_eq!(total(&values, &plus).map(number), Ok(1.0));
    assert_eq!(total(&[m(-0.0)], &plus), Ok(m(-0.0)));
    assert_eq!(total(&[m(2.5)], &plus), Ok(m(2.5)));
    assert_eq!(total(&[], &plus), Err(BenchError::EmptyCollection));
    let calls = std::cell::Cell::new(0);
    let counting = |a: Measure, b: Measure| {
        calls.set(calls.get() + 1);
        plus(a, b)
    };
    assert_eq!(total(&[m(1.0), m(2.0), m(4.0)], &counting), Ok(m(7.0)));
    assert_eq!(calls.get(), 2);
}

#[test]
fn mean_divides_the_total_by_the_number_of_values() {
    let values = vec![m(1.70), m(1.80)];
    assert_eq!(mean(&values, &plus, &divide).map(number), Ok((1.70 + 1.80) / 2.0));
    let values = vec![m(60.0), m(80.0)];
    assert_eq!(mean(&values, &plus, &divide), Ok(m(70.0)));
    let values = vec![m(1.0), m(2.0), m(6.0)];
    assert_eq!(mean(&values, &plus, &divide), Ok(m(3.0)));
    assert_eq!(mean(&[m(5.0)], &plus, &divide), Ok(m(5.0)));
    let seen = std::cell::Cell::new(0);
    let recording = |a: Measure, n: usize| {
        seen.set(n);
        divide(a, n)
    };
    assert_eq!(mean(&[m(1.0), m(1.0), m(1.0), m(1.0)], &plus, &recording), Ok(m(1.0)));
    assert_eq!(seen.get(), 4);
}

#[test]
fn mean_of_nothing_fails() {
    assert_eq!(mean(&[], &plus, &divide), Err(BenchError::EmptyCollection));
}

#[test]
fn scaled_values_are_the_values_times_the_factor() {
    let values: Vec<Measure> =
        [1.70, 1.80, 0.0, -2.5, 1e300, 5e-324].iter().map(|x| m(*x)).collect();
    let out = scaled(&values, &times);
    assert_eq!(out.len(), values.len());
    for (got, from) in out.iter().zip(values.iter()) {
        assert_eq!(number(*got), number(*from) * 1.1);
        assert!(close(number(*got), number(*from) * 1.1));
    }
    assert!(close(number(out[0]), 1.87));
    assert!(close(number(out[1]), 1.98));
    assert_eq!(scaled(&[], &times), Vec::<Measure>::new());
}

#[test]
fn float_pass_over_two_records() {
    let records = vec![sized(1.70, 60.0), sized(1.80, 80.0)];
    let summary = float_pass(&records, plus, divide, times).unwrap();
    assert!(close(number(summary.avg_height), 1.75));
    assert_eq!(number(summary.avg_weight), 70.0);
    assert_eq!(number(summary.extremes.max_height), 1.80);
    assert_eq!(number(summary.extremes.min_height), 1.70);
    assert_eq!(number(summary.extremes.max_weight), 80.0);
    assert_eq!(number(summary.extremes.min_weight), 60.0);
    assert_eq!(summary.scaled_heights.len(), 2);
    assert_eq!(summary.scaled_weights.len(), 2);
    assert!(close(number(summary.scaled_heights[0]), 1.87));
    assert!(close(number(summary.scaled_heights[1]), 1.98));
    assert!(close(number(summary.scaled_weights[0]), 66.0));
    assert!(close(number(summary.scaled_weights[1]), 88.0));
}

#[test]
fn float_pass_fails_on_no_records_and_on_what_is_not_a_number() {
    let none: Vec<Record> = Vec::new();
    assert_eq!(float_pass(&none, plus, divide, times).err(), Some(BenchError::EmptyCollection));
    let records = vec![sized(1.7, 60.0), sized(f64::NAN, 80.0)];
    assert_eq!(float_pass(&records, plus, divide, times).err(), Some(BenchError::NotANumber));
    let records = vec![sized(1.7, f64::NAN)];
    assert_eq!(float_pass(&records, plus, divide, times).err(), Some(BenchError::NotANumber));
}

#[test]
fn float_pass_keeps_infinities() {
    let records = vec![sized(f64::INFINITY, 1.0), sized(1.0, f64::NEG_INFINITY)];
    let summary = float_pass(&records, plus, divide, times).unwrap();
    assert_eq!(number(summary.avg_height), f64::INFINITY);
    assert_eq!(number(summary.extremes.max_height), f64::INFINITY);
    assert_eq!(number(summary.extremes.min_weight), f64::NEG_INFINITY);
    assert_eq!(number(summary.scaled_weights[1]), f64::NEG_INFINITY);
}
