use kaixue::paint::{fits_paint_area, is_white_space, paint_lines, FIRST_LINE_Y, LINE_SPACING};
use kaixue::quotes::{pick_quote, quote, QUOTE_COUNT};
use kaixue::time::{
    choose_start, local_now, school_start, start_from_lookup, LocalDateTime, LocalLookup, Timestamp,
};
use kaixue::wide::string_to_wstring;
use kaixue::window::{
    button_origin, classify_message, window_origin, Countdown, MessageKind, Reaction, TIMER_ID,
    WM_COMMAND, WM_DESTROY, WM_PAINT, WM_TIMER,
};

fn target_at(secs: i64) -> LocalDateTime {
    LocalDateTime {
        instant: Timestamp { secs, nanos: 0 },
        year: 2025,
        month: 9,
        day: 1,
        hour: 8,
        minute: 0,
        second: 0,
    }
}

fn painted(text: &str) -> Vec<(i32, String)> {
    paint_lines(text).into_iter().map(|l| (l.y, l.text)).collect()
}

#[test]
fn paint_skips_blank_lines() {
    assert_eq!(painted(""), vec![]);
    assert_eq!(painted("\n"), vec![]);
    assert_eq!(painted(" \t\n  "), vec![]);
    assert_eq!(
        painted("a\n\n  \n b \nc"),
        vec![(30, "a".to_string()), (55, " b ".to_string()), (80, "c".to_string())]
    );
    assert_eq!(painted("开学了"), vec![(30, "开学了".to_string())]);
    assert_eq!(painted("越\n\u{a0}\n"), vec![(30, "越".to_string())]);
    assert_eq!(painted("x\u{3000}\n\u{3000}\ny"), vec![(30, "x\u{3000}".to_string()), (55, "y".to_string())]);
}

#[test]
fn paint_agrees_with_split_and_trim() {
    let text = "目标时间: 2025年09月01日08时00分00秒;\n剩余秒数: 90061 秒;\n\u{a0}\n剩余时间：1天1小时1分1秒。\n";
    let expected: Vec<(i32, String)> = text
        .split('\n')
        .filter(|l| !l.trim().is_empty())
        .enumerate()
        .map(|(k, l)| (FIRST_LINE_Y + LINE_SPACING * k as i32, l.to_string()))
        .collect();
    assert_eq!(painted(text), expected);
    assert_eq!(expected.len(), 3);
}

#[test]
fn wide_strings_are_utf16_with_a_terminator() {
    assert_eq!(string_to_wstring(""), vec![0]);
    assert_eq!(string_to_wstring("ab"), vec![97, 98, 0]);
    assert_eq!(string_to_wstring("开学了"), vec![0x5F00, 0x5B66, 0x4E86, 0]);
    assert_eq!(string_to_wstring("😀"), vec![0xD83D, 0xDE00, 0]);
    for s in ["夏逝秋启，惜憾前行。", "KaixueWindowClass", "a😀b\u{10FFFF}\u{FFFF}"] {
        let mut expected: Vec<u16> = s.encode_utf16().collect();
        expected.push(0);
        assert_eq!(string_to_wstring(s), expected);
        let w = string_to_wstring(s);
        assert_eq!(String::from_utf16(&w[..w.len() - 1]).unwrap(), s);
    }
}

#[test]
fn quotes_are_the_eight_sayings() {
    assert_eq!(QUOTE_COUNT, 8);
    assert_eq!(
        quote(0),
        "“逝者如斯夫，不舍昼夜。” ——孔子《论语》\n【释义】时间如流水奔涌，日夜不停，警示世人莫虚度。"
    );
    assert_eq!(quote(4), "“时间就是性命。” ——鲁迅\n【释义】浪费他人时间如谋财害命，浪费自己时间如慢性自杀。");
    assert_eq!(
        quote(7),
        "“未来姗姗来迟，现在像箭一样飞逝，过去永远静立不动。” ——席勒\n【释义】唯有抓住当下，方能不悔过去、不惧未来。"
    );
    let all: Vec<&str> = (0..QUOTE_COUNT).map(quote).collect();
    for i in 0..all.len() {
        for j in 0..i {
            assert_ne!(all[i], all[j]);
        }
    }
}

#[test]
fn picked_quote_is_one_of_the_sayings() {
    let all: Vec<&str> = (0..QUOTE_COUNT).map(quote).collect();
    let mut seen = vec![false; QUOTE_COUNT];
    for _ in 0..400 {
        let q = pick_quote();
        let i = all.iter().position(|s| *s == q).expect("a known saying");
        seen[i] = true;
    }
    assert!(seen.iter().filter(|s| **s).count() > 1);
}

#[test]
fn messages_are_classified() {
    assert_eq!(classify_message(WM_COMMAND, 1001), MessageKind::Button);
    assert_eq!(classify_message(WM_COMMAND, 0x0001_03E9), MessageKind::Button);
    assert_eq!(classify_message(WM_COMMAND, 1002), MessageKind::Unhandled);
    assert_eq!(classify_message(WM_TIMER, TIMER_ID), MessageKind::Tick);
    assert_eq!(classify_message(WM_TIMER, 2), MessageKind::Unhandled);
    assert_eq!(classify_message(WM_PAINT, 0), MessageKind::Paint);
    assert_eq!(classify_message(WM_DESTROY, 0), MessageKind::Destroy);
    assert_eq!(classify_message(0x0200, 1001), MessageKind::Unhandled);
    assert_eq!((WM_DESTROY, WM_PAINT, WM_COMMAND, WM_TIMER), (2, 15, 0x111, 0x113));
}

#[test]
fn window_is_centred() {
    assert_eq!(window_origin(1920, 1080), (760, 415));
    assert_eq!(window_origin(401, 251), (0, 0));
    assert_eq!(window_origin(399, 249), (0, 0));
    assert_eq!(window_origin(300, 200), (-50, -25));
    assert_eq!(button_origin(0, 0, 384, 211), (132, 161));
    assert_eq!(button_origin(10, 20, 394, 231), (132, 161));
}

#[test]
fn countdown_without_target_keeps_its_text() {
    let mut c = Countdown::new(None);
    c.text = "kept".to_string();
    c.update_countdown_text();
    assert_eq!(c.text, "kept");
    assert!(!c.timer_tick(&Timestamp { secs: 0, nanos: 0 }, &Timestamp { secs: 0, nanos: 0 }));
    match c.window_procedure(WM_TIMER, TIMER_ID) {
        Reaction::Redraw { finished } => assert!(!finished),
        other => panic!("unexpected {:?}", other),
    }
    assert_eq!(c.text, "kept");
}

#[test]
fn countdown_tick_and_paint() {
    let mut c = Countdown::new(Some(target_at(1_000_000)));
    let now = Timestamp { secs: 1_000_000 - 61, nanos: 0 };
    assert!(!c.timer_tick(&now, &now));
    assert_eq!(
        c.text,
        "目标时间: 2025年09月01日08时00分00秒;\n剩余秒数: 61 秒;\n剩余时间：1分1秒。"
    );
    match c.window_procedure(WM_PAINT, 0) {
        Reaction::Paint(lines) => {
            let got: Vec<(i32, &str)> = lines.iter().map(|l| (l.y, l.text.as_str())).collect();
            assert_eq!(
                got,
                vec![
                    (30, "目标时间: 2025年09月01日08时00分00秒;"),
                    (55, "剩余秒数: 61 秒;"),
                    (80, "剩余时间：1分1秒。"),
                ]
            );
        }
        other => panic!("unexpected {:?}", other),
    }
    let at = Timestamp { secs: 1_000_000, nanos: 0 };
    assert!(c.timer_tick(&at, &at));
    assert_eq!(c.text, "开学了");
}

#[test]
fn window_procedure_reacts_to_each_message() {
    let mut past = Countdown::new(Some(target_at(0)));
    match past.window_procedure(WM_TIMER, TIMER_ID) {
        Reaction::Redraw { finished } => assert!(finished),
        other => panic!("unexpected {:?}", other),
    }
    assert_eq!(past.text, "开学了");

    let mut future = Countdown::new(Some(target_at(i64::MAX / 2)));
    match future.window_procedure(WM_TIMER, TIMER_ID) {
        Reaction::Redraw { finished } => assert!(!finished),
        other => panic!("unexpected {:?}", other),
    }
    assert!(future.text.starts_with("目标时间: 2025年09月01日08时00分00秒;\n剩余秒数: "));

    let before = future.text.clone();
    match future.window_procedure(WM_COMMAND, 1001) {
        Reaction::ShowQuote(q) => assert!((0..QUOTE_COUNT).any(|i| quote(i) == q)),
        other => panic!("unexpected {:?}", other),
    }
    assert!(matches!(future.window_procedure(WM_DESTROY, 0), Reaction::Quit));
    assert!(matches!(future.window_procedure(WM_COMMAND, 7), Reaction::Default));
    assert!(matches!(future.window_procedure(WM_TIMER, 9), Reaction::Default));
    assert!(matches!(future.window_procedure(0x0001, 0), Reaction::Default));
    assert_eq!(future.text, before);
}

#[test]
fn start_lookup_keeps_only_single_instants() {
    assert_eq!(start_from_lookup(2025, LocalLookup::Single(42)), Some(target_at(42)));
    assert_eq!(start_from_lookup(2025, LocalLookup::Ambiguous(1, 2)), None);
    assert_eq!(start_from_lookup(2025, LocalLookup::Missing), None);
}

#[test]
fn choose_start_falls_back_to_next_year() {
    assert_eq!(choose_start(2025, LocalLookup::Single(42), LocalLookup::Single(99)), Some(target_at(42)));
    let mut next = target_at(99);
    next.year = 2026;
    assert_eq!(choose_start(2025, LocalLookup::Missing, LocalLookup::Single(99)), Some(next));
    assert_eq!(choose_start(2025, LocalLookup::Ambiguous(1, 2), LocalLookup::Single(99)), Some(next));
    assert_eq!(choose_start(2025, LocalLookup::Missing, LocalLookup::Ambiguous(1, 2)), None);
    assert_eq!(choose_start(2025, LocalLookup::Missing, LocalLookup::Missing), None);
}

#[test]
fn school_start_is_first_of_september_at_eight() {
    // Which instant comes back depends on the machine's time zone; the
    // local fields do not.
    if let Some(t) = school_start(2024) {
        assert!(t.year == 2024 || t.year == 2025);
        assert_eq!((t.month, t.day, t.hour, t.minute, t.second, t.instant.nanos), (9, 1, 8, 0, 0, 0));
    }
}

#[test]
fn clock_reading_is_well_formed() {
    let now = local_now();
    assert!(now.instant.nanos < 1_000_000_000);
    assert!((1..=12).contains(&now.month));
    assert!((1..=31).contains(&now.day));
    assert!(now.hour <= 23 && now.minute <= 59 && now.second <= 59);
}

#[test]
fn white_space_agrees_with_std() {
    for v in 0u32..=0x10FFFF {
        if let Some(c) = char::from_u32(v) {
            assert_eq!(is_white_space(c), c.is_whitespace(), "U+{:04X}", v);
        }
    }
}

#[test]
fn short_texts_fit_the_paint_area() {
    assert!(fits_paint_area(""));
    assert!(fits_paint_area("开学了"));
    assert!(fits_paint_area("a\n\n b\n"));
    assert!(fits_paint_area(&"x\n".repeat(1000)));
}

#[test]
fn school_start_lies_within_a_day_of_its_local_time() {
    if let Some(t) = school_start(2024) {
        let naive = chrono::NaiveDate::from_ymd_opt(t.year, 9, 1)
            .unwrap()
            .and_hms_opt(8, 0, 0)
            .unwrap()
            .and_utc()
            .timestamp();
        assert!((t.instant.secs - naive).abs() < 86400);
    }
}
