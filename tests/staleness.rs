use bindgen_cuda::staleness::{is_stale, library_is_stale, stale_units};
use bindgen_cuda::UnitTimes;

#[test]
fn missing_output_is_stale() {
    assert!(is_stale(UnitTimes { source: 10, output: None }));
}

#[test]
fn older_output_is_stale() {
    assert!(is_stale(UnitTimes { source: 10, output: Some(9) }));
}

#[test]
fn output_as_old_as_source_is_stale() {
    assert!(is_stale(UnitTimes { source: 10, output: Some(10) }));
}

#[test]
fn newer_output_is_fresh() {
    assert!(!is_stale(UnitTimes { source: 10, output: Some(11) }));
}

#[test]
fn all_outputs_missing_marks_every_unit() {
    let times = vec![
        UnitTimes { source: 1, output: None },
        UnitTimes { source: 2, output: None },
        UnitTimes { source: 3, output: None },
    ];
    assert_eq!(stale_units(&times), vec![0, 1, 2]);
}

#[test]
fn all_outputs_newer_marks_no_unit() {
    let times = vec![
        UnitTimes { source: 1, output: Some(5) },
        UnitTimes { source: 2, output: Some(5) },
        UnitTimes { source: 3, output: Some(5) },
    ];
    assert!(stale_units(&times).is_empty());
}

#[test]
fn stale_units_keep_their_order() {
    let times = vec![
        UnitTimes { source: 1, output: Some(5) },
        UnitTimes { source: 7, output: Some(5) },
        UnitTimes { source: 3, output: Some(3) },
        UnitTimes { source: -4, output: None },
    ];
    assert_eq!(stale_units(&times), vec![1, 2, 3]);
}

#[test]
fn library_rebuilds_on_missing_or_old_archive() {
    assert!(library_is_stale(None, &vec![1, 2]));
    assert!(library_is_stale(Some(5), &vec![1, 6]));
    assert!(library_is_stale(Some(5), &vec![5]));
    assert!(!library_is_stale(Some(5), &vec![1, 4]));
    assert!(!library_is_stale(Some(5), &vec![]));
}
