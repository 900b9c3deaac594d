use sdrapp_core::demod::Decimator;
use sdrapp_core::DemodMode;

#[test]
fn mode_codes_match_the_c_interface() {
    assert_eq!(DemodMode::Am.code(), 0);
    assert_eq!(DemodMode::Wbfm.code(), 1);
    assert_eq!(DemodMode::from_code(0), DemodMode::Am);
    assert_eq!(DemodMode::from_code(1), DemodMode::Wbfm);
    assert_eq!(DemodMode::from_code(7), DemodMode::Wbfm);
    assert_eq!(DemodMode::from_code(u32::MAX), DemodMode::Wbfm);
}

#[test]
fn mode_code_roundtrip() {
    for m in [DemodMode::Am, DemodMode::Wbfm] {
        assert_eq!(DemodMode::from_code(m.code()), m);
    }
}

#[test]
fn zero_ratio_becomes_factor_one() {
    assert_eq!(Decimator::new(0).factor(), 1);
    assert_eq!(Decimator::new(1).factor(), 1);
    assert_eq!(Decimator::new(46).factor(), 46);
}

#[test]
fn stride_keeps_every_nth_from_first() {
    let d = Decimator::new(3);
    let values: Vec<u32> = (0..10).collect();
    assert_eq!(d.stride_select(&values), vec![0, 3, 6, 9]);
    let values: Vec<u32> = (0..9).collect();
    assert_eq!(d.stride_select(&values), vec![0, 3, 6]);
    let empty: Vec<u32> = Vec::new();
    assert!(d.stride_select(&empty).is_empty());
}

#[test]
fn stride_factor_one_keeps_everything() {
    let d = Decimator::new(0);
    let values = vec![5u8, 6, 7];
    assert_eq!(d.stride_select(&values), values);
}

#[test]
fn counter_keeps_value_when_count_reaches_factor() {
    let mut d = Decimator::new(3);
    let values: Vec<u32> = (0..10).collect();
    assert_eq!(d.counter_select(&values), vec![2, 5, 8]);
    // one value (index 9) is counted and carried over into the next block
    assert_eq!(d.counter_select(&[10u32, 11, 12]), vec![11]);
}

#[test]
fn counter_blocks_compose() {
    let values: Vec<u32> = (0..100).collect();
    let mut whole = Decimator::new(7);
    let all = whole.counter_select(&values);
    let mut split = Decimator::new(7);
    let mut parts = split.counter_select(&values[..33]);
    parts.extend(split.counter_select(&values[33..34]));
    parts.extend(split.counter_select(&values[34..]));
    assert_eq!(all, parts);
    assert_eq!(all.len(), 100 / 7);
}

#[test]
fn test_empty_input_returns_empty() {
    let mut d = Decimator::new(46);
    let empty: Vec<f32> = Vec::new();
    assert!(d.counter_select(&empty).is_empty());
    assert!(d.stride_select(&empty).is_empty());
}

#[test]
fn test_decimation_reduces_sample_count() {
    // 2.048 MS/s to 44.1 kHz audio: the ratio rounds to 46
    let input_count = 4096;
    let values = vec![0.5f32; input_count];
    let mut d = Decimator::new(46);
    let am = d.stride_select(&values);
    assert_eq!(am.len(), 90);
    assert!(am.len() < input_count / 10);
    assert!(am.iter().all(|&s| s == 0.5));
    let fm = d.counter_select(&values);
    assert_eq!(fm.len(), 89);
    assert!(!fm.is_empty());
}
