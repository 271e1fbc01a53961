use kcore::text::Text;
use kcore::time::{SystemTime, TimeSpan};

fn as_string(t: &Text) -> String {
    String::from_utf8(t.as_bytes().to_vec()).unwrap()
}

#[test]
fn comparison_is_lexicographic() {
    let a = SystemTime { unix_time: 5, ns_time: 9 };
    let b = SystemTime { unix_time: 6, ns_time: 0 };
    let c = SystemTime { unix_time: 5, ns_time: 10 };
    assert!(a.le(&b));
    assert!(!b.le(&a));
    assert!(a.le(&c));
    assert!(!c.le(&a));
    assert!(a.le(&a));
    assert_eq!(a, SystemTime { unix_time: 5, ns_time: 9 });
}

#[test]
fn duration_since_forward() {
    let early = SystemTime { unix_time: 1000, ns_time: 0 };
    let late = SystemTime { unix_time: 4500, ns_time: 0 };
    let d = late.duration_since(&early).unwrap();
    assert_eq!(d, TimeSpan { millis: 3500 });
}

#[test]
fn duration_since_reversed_is_an_error() {
    let early = SystemTime { unix_time: 1000, ns_time: 0 };
    let late = SystemTime { unix_time: 4500, ns_time: 0 };
    let e = early.duration_since(&late).unwrap_err();
    assert_eq!(e.0, TimeSpan { millis: 3500 });
}

#[test]
fn duration_since_same_instant_is_zero() {
    let t = SystemTime { unix_time: 77, ns_time: 3 };
    assert_eq!(t.duration_since(&t).unwrap(), TimeSpan { millis: 0 });
}

#[test]
fn elapsed_measures_from_the_given_clock_value() {
    let start = SystemTime { unix_time: 100, ns_time: 0 };
    let now = SystemTime { unix_time: 350, ns_time: 0 };
    assert_eq!(start.elapsed(&now).unwrap(), TimeSpan { millis: 250 });
    let err = now.elapsed(&start).unwrap_err();
    assert_eq!(err.0, TimeSpan { millis: 250 });
}

#[test]
fn label_of_the_epoch() {
    let t = SystemTime { unix_time: 0, ns_time: 0 };
    assert_eq!(as_string(&t.to_label()), "[ 1970-1-1 0:0:0.0 ]");
}

#[test]
fn label_of_a_time_of_day() {
    // 12 hours, 34 minutes, 56 seconds and 789 milliseconds into the
    // first day of the epoch
    let ms = ((12 * 60 + 34) * 60 + 56) * 1000 + 789;
    let t = SystemTime { unix_time: ms, ns_time: 0 };
    assert_eq!(as_string(&t.to_label()), "[ 1970-1-1 12:34:56.789 ]");
}

#[test]
fn label_of_a_later_four_year_block() {
    // a whole four-year block of the scheme: 1461 days
    let day = 86_400_000usize;
    let t = SystemTime { unix_time: 1461 * day, ns_time: 0 };
    assert_eq!(as_string(&t.to_label()), "[ 1974-1-1 0:0:0.0 ]");
}

#[test]
fn label_of_a_later_month_and_day() {
    // 31 January days and one more day: the second of February 1970
    let day = 86_400_000usize;
    let t = SystemTime { unix_time: 32 * day, ns_time: 0 };
    assert_eq!(as_string(&t.to_label()), "[ 1970-2-2 0:0:0.0 ]");
}
