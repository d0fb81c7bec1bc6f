use eadai::analysis::engine::{
    edge_count_outcome, evaluate_rules, measurement_reading, metric_label, missing_metric_reason,
    prune_old_samples, ActiveRules, MetricKind, SamplePoint,
};
use eadai::analysis::imu::{classify_raw_channel, gyro_unit_in_radians, AxisKind, PendingSample};
use eadai::fields::FieldMap;
use std::collections::VecDeque;

fn fields(pairs: &[(&str, &str)]) -> FieldMap {
    let mut map = FieldMap::new();
    for (key, value) in pairs {
        map.insert(key.to_string(), value.to_string());
    }
    map
}

fn outcomes(pairs: &[(&str, bool)]) -> Vec<(String, bool)> {
    pairs.iter().map(|(id, matched)| (id.to_string(), *matched)).collect()
}

#[test]
fn metric_names_and_missing_reasons() {
    assert_eq!(metric_label(MetricKind::DutyCycle), "dutyCycle");
    assert_eq!(missing_metric_reason(MetricKind::MeanValue), "mean missing");
    assert_eq!(missing_metric_reason(MetricKind::RmsValue), "rms missing");
}

#[test]
fn edge_count_rules_match_from_their_minimum() {
    assert_eq!(edge_count_outcome(7, 6), (true, "edgeCount 7 vs 6".to_string()));
    assert_eq!(edge_count_outcome(6, 6), (true, "edgeCount 6 vs 6".to_string()));
    assert_eq!(edge_count_outcome(5, 6), (false, "edgeCount 5 vs 6".to_string()));
}

#[test]
fn readings_prefer_the_numeric_value_and_the_line_timestamp() {
    let parsed = fields(&[
        ("channel_id", "voltage"),
        ("numeric_value", "12.5"),
        ("value", "12.5V"),
        ("timestamp", "1000"),
    ]);
    assert_eq!(
        measurement_reading(&parsed, 77),
        Some(("voltage".to_string(), "12.5".to_string(), 1000))
    );
}

#[test]
fn readings_fall_back_to_the_value_and_the_receive_time() {
    let parsed = fields(&[("channel_id", "temp"), ("value", "21.0C"), ("timestamp", "soon")]);
    assert_eq!(
        measurement_reading(&parsed, 77),
        Some(("temp".to_string(), "21.0C".to_string(), 77))
    );
    let untimed = fields(&[("channel_id", "temp"), ("value", "21.0")]);
    assert_eq!(measurement_reading(&untimed, 5).unwrap().2, 5);
}

#[test]
fn readings_need_a_channel_and_a_value() {
    assert_eq!(measurement_reading(&fields(&[("value", "1")]), 0), None);
    assert_eq!(measurement_reading(&fields(&[("channel_id", "x")]), 0), None);
}

#[test]
fn old_samples_leave_the_window() {
    let mut samples: VecDeque<SamplePoint<i32>> = [100u64, 500, 1500, 2600]
        .iter()
        .map(|&timestamp_ms| SamplePoint { timestamp_ms, value: 1 })
        .collect();
    prune_old_samples(&mut samples, 2000, 2600);
    let kept: Vec<u64> = samples.iter().map(|sample| sample.timestamp_ms).collect();
    assert_eq!(kept, vec![1500, 2600]);
}

#[test]
fn the_newest_sample_always_stays() {
    let mut samples: VecDeque<SamplePoint<i32>> =
        [SamplePoint { timestamp_ms: 10, value: 3 }].into_iter().collect();
    prune_old_samples(&mut samples, 5, 100_000);
    assert_eq!(samples.len(), 1);
    let mut early: VecDeque<SamplePoint<i32>> = [0u64, 1, 2]
        .iter()
        .map(|&timestamp_ms| SamplePoint { timestamp_ms, value: 0 })
        .collect();
    prune_old_samples(&mut early, 2000, 2);
    assert_eq!(early.len(), 3);
}

#[test]
fn a_rule_fires_when_it_starts_to_match() {
    let mut active = ActiveRules::new();
    let first = outcomes(&[("voltage-high-mean", true), ("temp-low-mean", false)]);
    assert_eq!(evaluate_rules(&mut active, &first), vec![0]);
    assert!(active.is_active("voltage-high-mean"));
    assert!(!active.is_active("temp-low-mean"));
    assert!(!active.is_active("never-seen"));
}

#[test]
fn a_matched_rule_fires_once_while_it_stays_matched() {
    let mut active = ActiveRules::new();
    let window = outcomes(&[("a", true), ("b", true)]);
    assert_eq!(evaluate_rules(&mut active, &window), vec![0, 1]);
    assert_eq!(evaluate_rules(&mut active, &window), Vec::<usize>::new());
    assert_eq!(evaluate_rules(&mut active, &window), Vec::<usize>::new());
}

#[test]
fn a_rule_fires_again_after_it_stopped_matching() {
    let mut active = ActiveRules::default();
    assert_eq!(evaluate_rules(&mut active, &outcomes(&[("edge", true)])), vec![0]);
    assert_eq!(evaluate_rules(&mut active, &outcomes(&[("edge", false)])), Vec::<usize>::new());
    assert_eq!(evaluate_rules(&mut active, &outcomes(&[("edge", true)])), vec![0]);
}

#[test]
fn gyro_units_in_radians() {
    assert!(gyro_unit_in_radians(Some("rad/s")));
    assert!(gyro_unit_in_radians(Some("RAD")));
    assert!(!gyro_unit_in_radians(Some("dps")));
    assert!(!gyro_unit_in_radians(Some("ra")));
    assert!(!gyro_unit_in_radians(None));
}

#[test]
fn six_axes_of_one_time_make_a_sample() {
    let mut pending = PendingSample::<i32>::new();
    let axes = [
        AxisKind::AccelX,
        AxisKind::AccelY,
        AxisKind::AccelZ,
        AxisKind::GyroX,
        AxisKind::GyroY,
    ];
    for (index, axis) in axes.iter().enumerate() {
        assert!(pending.ingest(*axis, index as i32, 40).is_none());
    }
    let sample = pending.ingest(AxisKind::GyroZ, 5, 40).unwrap();
    assert_eq!(sample.timestamp_ms, 40);
    assert_eq!(sample.accel, [0, 1, 2]);
    assert_eq!(sample.gyro, [3, 4, 5]);
    assert!(pending.timestamp_ms.is_none());
}

#[test]
fn a_new_time_drops_the_values_gathered_before() {
    let mut pending = PendingSample::<i32>::new();
    for axis in [AxisKind::AccelX, AxisKind::AccelY, AxisKind::AccelZ, AxisKind::GyroX, AxisKind::GyroY] {
        assert!(pending.ingest(axis, 1, 10).is_none());
    }
    assert!(pending.ingest(AxisKind::GyroZ, 1, 11).is_none());
    assert_eq!(pending.timestamp_ms, Some(11));
    assert_eq!(pending.gyro[2], Some(1));
    assert_eq!(pending.accel, [None, None, None]);
}

#[test]
fn raw_channels_name_their_sensor_and_axis() {
    let (label, axis) = classify_raw_channel("IMU_Accel_X").unwrap();
    assert_eq!(label, "imu");
    assert_eq!(axis, AxisKind::AccelX);
    let (label, axis) = classify_raw_channel("left.gz").unwrap();
    assert_eq!(label, "left_imu");
    assert_eq!(axis, AxisKind::GyroZ);
    assert!(classify_raw_channel("voltage").is_none());
}
