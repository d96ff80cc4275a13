use spectro_cam_rs::filter::{FilterStep, ZeroPhaseFilter};
use spectro_cam_rs::spectrum::Spectrum;

fn spectrum() -> Spectrum {
    Spectrum::from_rows(vec![1, 2, 3], vec![10, 20, 30], vec![100, 200, 300], vec![111, 222, 333])
        .unwrap()
}

#[test]
fn every_row_is_run_forward_and_then_backward() {
    let mut filter = ZeroPhaseFilter::new(&spectrum());
    let mut fed = Vec::new();
    let mut restarts = 0;
    let mut next = 1000;
    loop {
        match filter.step() {
            FilterStep::Restart => {
                restarts += 1;
                fed.push(None);
                filter.restarted();
            }
            FilterStep::Sample(sample) => {
                fed.push(Some(sample));
                filter.accept(next);
                next += 1;
            }
            FilterStep::Finished => break,
        }
    }
    assert_eq!(restarts, 8);
    assert_eq!(
        fed,
        vec![
            None, Some(1), Some(2), Some(3),
            None, Some(1002), Some(1001), Some(1000),
            None, Some(10), Some(20), Some(30),
            None, Some(1008), Some(1007), Some(1006),
            None, Some(100), Some(200), Some(300),
            None, Some(1014), Some(1013), Some(1012),
            None, Some(111), Some(222), Some(333),
            None, Some(1020), Some(1019), Some(1018),
        ]
    );
    // what is kept is the output of the backward pass
    let smoothed = filter.spectrum();
    assert_eq!(smoothed.row(0), &vec![1005, 1004, 1003]);
    assert_eq!(smoothed.row(1), &vec![1011, 1010, 1009]);
    assert_eq!(smoothed.row(2), &vec![1017, 1016, 1015]);
    assert_eq!(smoothed.row(3), &vec![1023, 1022, 1021]);
    assert!(filter.is_finished());
}

#[test]
fn a_filter_that_passes_its_input_changes_nothing() {
    let mut filter = ZeroPhaseFilter::new(&spectrum());
    loop {
        match filter.step() {
            FilterStep::Restart => filter.restarted(),
            FilterStep::Sample(sample) => filter.accept(sample),
            FilterStep::Finished => break,
        }
    }
    let smoothed = filter.spectrum();
    for row in 0..4 {
        assert_eq!(smoothed.row(row), spectrum().row(row));
    }
}

#[test]
fn events_out_of_turn_are_ignored() {
    let mut filter = ZeroPhaseFilter::new(&spectrum());
    assert_eq!(filter.step(), FilterStep::Restart);
    filter.accept(77);
    assert_eq!(filter.step(), FilterStep::Restart);
    filter.restarted();
    assert_eq!(filter.step(), FilterStep::Sample(1));
    filter.restarted();
    assert_eq!(filter.step(), FilterStep::Sample(1));
    filter.accept(5);
    assert_eq!(filter.step(), FilterStep::Sample(2));
    assert_eq!(filter.spectrum().row(0), &vec![5, 2, 3]);
    assert!(!filter.is_finished());
}

#[test]
fn a_spectrum_without_bins_is_finished_at_once() {
    let mut filter = ZeroPhaseFilter::new(&Spectrum::zeros(0));
    assert_eq!(filter.step(), FilterStep::Finished);
    assert!(filter.is_finished());
    filter.restarted();
    filter.accept(1);
    assert_eq!(filter.step(), FilterStep::Finished);
    assert_eq!(filter.spectrum().ncols(), 0);
}

#[test]
fn a_single_bin_is_run_twice_per_row() {
    let one = Spectrum::from_rows(vec![1], vec![2], vec![3], vec![4]).unwrap();
    let mut filter = ZeroPhaseFilter::new(&one);
    let mut samples = Vec::new();
    loop {
        match filter.step() {
            FilterStep::Restart => filter.restarted(),
            FilterStep::Sample(sample) => {
                samples.push(sample);
                filter.accept(sample * 10);
            }
            FilterStep::Finished => break,
        }
    }
    assert_eq!(samples, vec![1, 10, 2, 20, 3, 30, 4, 40]);
    assert_eq!(filter.spectrum().row(3), &vec![400]);
    assert_eq!(filter.into_spectrum().row(0), &vec![100]);
}
