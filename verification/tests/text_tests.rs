use kaixue::countdown::{
    format_countdown, format_duration_detailed, format_target_date, split_duration,
    whole_seconds_until,
};
use kaixue::decimal::{decimal_string, push_signed_zero_padded, push_zero_padded};
use kaixue::time::{LocalDateTime, Timestamp};

fn start_2025() -> LocalDateTime {
    LocalDateTime {
        instant: Timestamp { secs: 1_756_684_800, nanos: 0 },
        year: 2025,
        month: 9,
        day: 1,
        hour: 8,
        minute: 0,
        second: 0,
    }
}

#[test]
fn decimal_matches_to_string() {
    for n in [0u64, 7, 10, 99, 100, 1234567890, u64::MAX] {
        assert_eq!(decimal_string(n), n.to_string());
    }
}

#[test]
fn zero_padding_matches_format() {
    for (n, w) in [(0u64, 2usize), (5, 2), (12, 2), (123, 2), (7, 4), (2025, 4), (5, 0)] {
        let mut s = String::new();
        push_zero_padded(&mut s, n, w);
        assert_eq!(s, format!("{:0w$}", n, w = w));
    }
}

#[test]
fn signed_zero_padding_matches_format() {
    for n in [2025i32, 5, 0, -5, -123, -12345, i32::MIN, i32::MAX] {
        let mut s = String::new();
        push_signed_zero_padded(&mut s, n, 4);
        assert_eq!(s, format!("{:04}", n));
    }
}

#[test]
fn duration_parts_recompose() {
    for total in [0u64, 59, 60, 3599, 3600, 86399, 86400, 90061, 1_000_000_007] {
        let p = split_duration(total);
        assert_eq!(p.days * 86400 + p.hours * 3600 + p.minutes * 60 + p.seconds, total);
        assert!(p.hours < 24 && p.minutes < 60 && p.seconds < 60);
    }
    let p = split_duration(90061);
    assert_eq!((p.days, p.hours, p.minutes, p.seconds), (1, 1, 1, 1));
}

#[test]
fn detailed_duration_drops_leading_zero_units() {
    assert_eq!(format_duration_detailed(0), "0秒");
    assert_eq!(format_duration_detailed(59), "59秒");
    assert_eq!(format_duration_detailed(60), "1分0秒");
    assert_eq!(format_duration_detailed(3600), "1小时0分0秒");
    assert_eq!(format_duration_detailed(3661), "1小时1分1秒");
    assert_eq!(format_duration_detailed(86400), "1天0小时0分0秒");
    assert_eq!(format_duration_detailed(90061), "1天1小时1分1秒");
    assert_eq!(format_duration_detailed(200 * 86400 + 59), "200天0小时0分59秒");
}

#[test]
fn target_date_is_zero_padded() {
    assert_eq!(format_target_date(&start_2025()), "2025年09月01日08时00分00秒");
    let mut t = start_2025();
    t.year = 5;
    t.month = 12;
    t.day = 31;
    t.hour = 23;
    t.minute = 59;
    t.second = 7;
    assert_eq!(format_target_date(&t), "0005年12月31日23时59分07秒");
    t.year = -5;
    assert_eq!(format_target_date(&t), "-005年12月31日23时59分07秒");
}

#[test]
fn whole_seconds_drop_the_fraction() {
    let target = Timestamp { secs: 1000, nanos: 0 };
    assert_eq!(whole_seconds_until(&target, &Timestamp { secs: 999, nanos: 1 }), 0);
    assert_eq!(whole_seconds_until(&target, &Timestamp { secs: 998, nanos: 999_999_999 }), 1);
    assert_eq!(whole_seconds_until(&target, &Timestamp { secs: 0, nanos: 0 }), 1000);
    let target = Timestamp { secs: 1000, nanos: 500 };
    assert_eq!(whole_seconds_until(&target, &Timestamp { secs: 990, nanos: 400 }), 10);
    assert_eq!(whole_seconds_until(&target, &Timestamp { secs: 990, nanos: 600 }), 9);
    let far = Timestamp { secs: i64::MAX, nanos: 0 };
    assert_eq!(whole_seconds_until(&far, &Timestamp { secs: i64::MIN, nanos: 0 }), u64::MAX);
}

#[test]
fn countdown_text_before_the_target() {
    let target = start_2025();
    let now = Timestamp { secs: target.instant.secs - 90062, nanos: 500_000_000 };
    assert_eq!(
        format_countdown(&target, &now),
        "目标时间: 2025年09月01日08时00分00秒;\n剩余秒数: 90061 秒;\n剩余时间：1天1小时1分1秒。"
    );
    let now = Timestamp { secs: target.instant.secs - 1, nanos: 1 };
    assert_eq!(
        format_countdown(&target, &now),
        "目标时间: 2025年09月01日08时00分00秒;\n剩余秒数: 0 秒;\n剩余时间：0秒。"
    );
}

#[test]
fn countdown_text_from_the_target_on() {
    let target = start_2025();
    assert_eq!(format_countdown(&target, &target.instant), "开学了");
    let later = Timestamp { secs: target.instant.secs + 5, nanos: 3 };
    assert_eq!(format_countdown(&target, &later), "开学了");
}
