use cc_hub::common::{
    append_bar, bar_color, build_usage_line, context_window_size, ctx_bar, ctx_color, datetime_at, format_datetime,
    format_duration_secs, format_elapsed, format_reset, format_time, format_tool_label, reset_at, short_model, short_tool,
    time_at, usage_line, UsageInfo,
};
use cc_hub::geometry::{
    centered_fixed, centered_rect, inner_of, inner_padded, main_layout, share_85, share_90, share_92, Rect,
};
use cc_hub::models::{ellipsize, first_line_truncated, short_sid_of, CurrentTool};
use cc_hub::ordering::descending_of;
use cc_hub::rounding::{format_tokens, round_ratio, tenths_ratio};
use cc_hub::style::{Color, Line};

fn words(l: &Line) -> String {
    l.spans.iter().map(|s| s.text.as_str()).collect()
}

fn tokens(n: u64) -> String {
    if n >= 1_000_000 {
        format!("{:.1}M", n as f64 / 1_000_000.0)
    } else if n >= 1_000 {
        format!("{:.1}k", n as f64 / 1_000.0)
    } else {
        format!("{}", n)
    }
}

/// A spread of numbers of every size.
fn spread() -> Vec<u64> {
    let mut out: Vec<u64> = (0..3000).collect();
    let mut x: u64 = 88172645463325252;
    for i in 0..4000 {
        x ^= x << 13;
        x ^= x >> 7;
        x ^= x << 17;
        out.push(x >> (i % 60));
    }
    for i in 0..400 {
        out.push(1000 * i + 50);
        out.push(1000 * i + 250);
        out.push(1_000_000 + 50_000 * i);
        out.push(999_900 + i);
    }
    out.extend([u64::MAX, u64::MAX - 1, 1 << 53, (1 << 53) + 1, (1 << 54) + 3]);
    out
}

#[test]
fn token_counts_round_as_floats_do() {
    assert_eq!(format_tokens(0), "0");
    assert_eq!(format_tokens(999), "999");
    assert_eq!(format_tokens(1000), "1.0k");
    assert_eq!(format_tokens(1250), "1.2k");
    assert_eq!(format_tokens(1750), "1.8k");
    assert_eq!(format_tokens(1350), "1.4k");
    assert_eq!(format_tokens(999_999), "1000.0k");
    assert_eq!(format_tokens(1_000_000), "1.0M");
    for n in spread() {
        assert_eq!(format_tokens(n), tokens(n));
    }
}

#[test]
fn ratios_round_as_floats_do() {
    let some = spread();
    for (i, n) in some.iter().enumerate() {
        let d = some[(i * 7919 + 13) % some.len()].max(1);
        let (n, d) = (*n.min(&d), d);
        for k in [7, 16, 24, 30, 100] {
            let x = n as f64 / d as f64 * k as f64;
            assert_eq!(round_ratio(n, d, k), x.round() as u128, "{} / {} * {}", n, d, k);
            let tenths = tenths_ratio(n, d, k);
            assert_eq!(format!("{}.{}", tenths / 10, tenths % 10), format!("{:.1}", x), "{} / {} * {}", n, d, k);
        }
    }
}

fn centered(area: Rect, ratio: f32) -> Rect {
    let w = (area.width as f32 * ratio) as u16;
    let h = (area.height as f32 * ratio) as u16;
    let x = area.x + (area.width.saturating_sub(w)) / 2;
    let y = area.y + (area.height.saturating_sub(h)) / 2;
    Rect { x, y, width: w, height: h }
}

#[test]
fn shares_of_the_screen_round_as_floats_do() {
    for n in 0..=u16::MAX {
        let area = Rect { x: 0, y: 0, width: n, height: u16::MAX - n };
        assert_eq!(centered_rect(area, share_85()), centered(area, 0.85));
        assert_eq!(centered_rect(area, share_90()), centered(area, 0.9));
        assert_eq!(centered_rect(area, share_92()), centered(area, 0.92));
    }
}

#[test]
fn boxes_and_bands() {
    let area = Rect { x: 2, y: 3, width: 20, height: 10 };
    assert_eq!(centered_fixed(area, 10, 4), Rect { x: 7, y: 6, width: 10, height: 4 });
    assert_eq!(centered_fixed(area, 50, 40), area);
    assert_eq!(inner_of(area), Rect { x: 3, y: 4, width: 18, height: 8 });
    assert_eq!(inner_padded(area, 1), Rect { x: 4, y: 4, width: 16, height: 8 });
    assert_eq!(inner_of(Rect { x: 0, y: 0, width: 1, height: 1 }).height, 0);
    let bands = main_layout(Rect { x: 0, y: 0, width: 80, height: 24 });
    let rows: Vec<(u16, u16)> = bands.iter().map(|b| (b.y, b.height)).collect();
    assert_eq!(rows, vec![(0, 1), (1, 3), (4, 19), (23, 1)]);
}

#[test]
fn sorting_is_stable_and_descending() {
    assert_eq!(descending_of(&vec![3, 9, 3, 1, 9]), vec![1, 4, 0, 2, 3]);
    assert!(descending_of(&Vec::new()).is_empty());
}

#[test]
fn texts_are_cut() {
    assert_eq!(ellipsize("abcdef", 6), "abcdef");
    assert_eq!(ellipsize("abcdefg", 6), "abcde…");
    assert_eq!(first_line_truncated("one\ntwo", 10), "one");
    assert_eq!(short_sid_of("0123456789"), "01234567");
}

#[test]
fn bars_fill_with_the_percentage() {
    let bar = |pct: u8, w: u16| {
        let mut l = Line::empty();
        append_bar(&mut l, pct, w);
        words(&l)
    };
    assert_eq!(bar(0, 4).chars().count(), 4);
    assert_eq!(bar(50, 4).chars().count(), 4);
    assert_eq!(bar(255, 4).chars().count(), 4);
    assert_eq!(words(&ctx_bar(50, 8)).chars().count(), 8);
    assert_eq!((bar_color(49), bar_color(100)), (Color::Green, Color::Red));
    assert_ne!(ctx_color(0), ctx_color(100));
}

#[test]
fn models_and_tools_are_named() {
    assert_eq!(short_model("house", "house-opus-4-1-20250805"), "opus-4-1-20250805");
    assert_eq!(short_model("house", "gpt-5"), "gpt-5");
    assert_eq!(short_tool("mcp__srv__do_it"), "do_it");
    assert_eq!(short_tool("Bash"), "Bash");
    assert_eq!(context_window_size("gpt-5"), 200_000);
    assert_eq!(context_window_size("opus[1m]"), 1_000_000);
    let tool = CurrentTool { name: "Read".to_string(), hint: Some("src/lib.rs".to_string()) };
    assert_eq!(format_tool_label(&tool, 40), "󰖷 Read: src/lib.rs");
    assert_eq!(format_tool_label(&tool, 15), "󰖷 Read: src/l…");
    assert_eq!(format_tool_label(&tool, 3), "󰖷 Read: src/l…");
    let bare = CurrentTool { name: "mcp__srv__a_very_long_tool_name".to_string(), hint: Some(String::new()) };
    assert_eq!(format_tool_label(&bare, 40), "󰖷 a_very_long_tool_…");
}

#[test]
fn durations() {
    assert_eq!(format_duration_secs(0), "0s");
    assert_eq!(format_duration_secs(59), "59s");
    assert_eq!(format_duration_secs(60), "1m");
    assert_eq!(format_duration_secs(3599), "59m");
    assert_eq!(format_duration_secs(3600), "1h");
    assert_eq!(format_duration_secs(3660), "1h 1m");
    assert_eq!(format_duration_secs(86_400), "1d");
    assert_eq!(format_duration_secs(90_000), "1d 1h");
    assert_eq!(format_elapsed(10_000, 4_000), "6s");
    assert_eq!(format_elapsed(4_000, 10_000), "0s");
}

/// The clock on the wall at a moment, as the machine's time zone has it.
fn wall(secs: i64, nanos: u32, form: &str) -> String {
    let utc = chrono::DateTime::from_timestamp(secs, nanos).unwrap();
    utc.with_timezone(&chrono::Local).format(form).to_string()
}

#[test]
fn moments_are_local() {
    assert_eq!(format_time(1_700_000_000_123), wall(1_700_000_000, 0, "%l:%M %p"));
    assert_eq!(format_datetime(1_700_000_000_123), wall(1_700_000_000, 0, "%b %d %l:%M %p"));
    assert_eq!(format_time(u64::MAX), "??:??");
    assert_eq!(format_datetime(u64::MAX), "unknown");
    assert_eq!(format_reset("2023-11-14T22:13:20Z", "%a %-l%p").unwrap(), wall(1_700_000_000, 0, "%a %-l%p").to_lowercase());
    assert!(format_reset("tomorrow", "%a %-l%p").is_none());
}

#[test]
fn moments_on_a_clock_of_a_given_offset() {
    assert_eq!(time_at(1_700_000_000_123, 0), "10:13 PM");
    assert_eq!(time_at(1_700_000_000_123, 3 * 3600), " 1:13 AM");
    assert_eq!(time_at(u64::MAX, 0), "??:??");
    assert_eq!(datetime_at(1_700_000_000_123, 0), "Nov 14 10:13 PM");
    assert_eq!(datetime_at(1_700_000_000_123, 3 * 3600), "Nov 15  1:13 AM");
    assert_eq!(datetime_at(u64::MAX, 0), "unknown");
    assert_eq!(reset_at("2023-11-14T22:13:20Z", "%-l%p", 0), Some("10pm".to_string()));
    assert_eq!(reset_at("2023-11-14T22:13:20Z", "%a %-l%p", 0), Some("tue 10pm".to_string()));
    assert_eq!(reset_at("2023-11-15T00:13:20+02:00", "%a %-l%p", 3 * 3600), Some("wed 1am".to_string()));
    assert_eq!(reset_at("tomorrow", "%-l%p", 0), None);
}

#[test]
fn usage_line_tells_the_hour_and_the_day() {
    let at = "2023-11-14T22:13:20Z".to_string();
    let u = UsageInfo { five_hour_pct: 5, seven_day_pct: 7, five_hour_resets_at: Some(at.clone()), seven_day_resets_at: Some(at) };
    let line = words(&build_usage_line(&u));
    let hour = wall(1_700_000_000, 0, "%-l%p").to_lowercase();
    let day = wall(1_700_000_000, 0, "%a %-l%p").to_lowercase();
    assert!(line.starts_with(&format!(" 5h {} ", hour)), "{}", line);
    assert!(line.contains(&format!("wk {} ", day)), "{}", line);
}

#[test]
fn usage_is_shown_in_two_gauges() {
    let u = UsageInfo {
        five_hour_pct: 42,
        five_hour_resets_at: None,
        seven_day_pct: 7,
        seven_day_resets_at: Some("never".to_string()),
    };
    let line = words(&build_usage_line(&u));
    assert!(line.contains("42%") && line.contains("7%"), "{}", line);
    assert_eq!(line, words(&usage_line(&u, &None, &None)));
    let with = words(&usage_line(&u, &Some("10:00".to_string()), &Some("Mon 3".to_string())));
    assert!(with.contains("10:00") && with.contains("Mon 3"), "{}", with);
}
