use zperf::record::{decimal_text, elapsed_since, format_record, LatencySample, RunLabels};

fn labels() -> RunLabels {
    RunLabels {
        scenario: String::from("local"),
        name: String::from("run1"),
        interval: String::from("0.5"),
    }
}

#[test]
fn decimal_digits() {
    assert_eq!(decimal_text(0), "0");
    assert_eq!(decimal_text(7), "7");
    assert_eq!(decimal_text(10), "10");
    assert_eq!(decimal_text(1234567890), "1234567890");
    assert_eq!(decimal_text(u64::MAX), "18446744073709551615");
}

#[test]
fn elapsed_never_negative() {
    assert_eq!(elapsed_since(100, 250), 150);
    assert_eq!(elapsed_since(100, 100), 0);
    assert_eq!(elapsed_since(300, 100), 0);
}

#[test]
fn sequential_record_line() {
    let s = LatencySample { sequence: 12, payload_len: 64, elapsed_us: 345 };
    assert_eq!(
        format_record(&labels(), false, &s),
        "zenoh,local,latency.sequential,run1,64,0.5,12,345"
    );
}

#[test]
fn parallel_record_line() {
    let s = LatencySample { sequence: 0, payload_len: 8, elapsed_us: 0 };
    assert_eq!(format_record(&labels(), true, &s), "zenoh,local,latency.parallel,run1,8,0.5,0,0");
}
