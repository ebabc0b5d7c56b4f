use cowtui::cow::Mood;
use cowtui::sys::{c_str, visible_count, Mem};
use cowtui::text::{chars_less, contains_chars, i32_to_string, str_eq, u64_to_string};
use cowtui::ui::layout::{centered_rect, core_grid, grid_span, Area};
use cowtui::ui::theme::{Color, Theme};
use cowtui::ui::widgets::{fmt_uptime, trim_mount, truncate};

#[test]
fn mood_thresholds() {
    assert_eq!(Mood::from_level(0), Mood::Grazing);
    assert_eq!(Mood::from_level(24), Mood::Grazing);
    assert_eq!(Mood::from_level(25), Mood::Content);
    assert_eq!(Mood::from_level(49), Mood::Content);
    assert_eq!(Mood::from_level(50), Mood::Busy);
    assert_eq!(Mood::from_level(74), Mood::Busy);
    assert_eq!(Mood::from_level(75), Mood::Stressed);
    assert_eq!(Mood::from_level(89), Mood::Stressed);
    assert_eq!(Mood::from_level(90), Mood::Panic);
    assert_eq!(Mood::from_level(u64::MAX), Mood::Panic);
}

#[test]
fn mood_level_matches_float_truncation() {
    // The level is the float level with its fraction dropped.
    for x in [0.0f64, 24.99, 25.0, 49.9, 50.0, 74.999, 75.0, 89.99, 90.0, 250.0, -3.0, f64::NAN] {
        let by_float = if x >= 90.0 {
            Mood::Panic
        } else if x >= 75.0 {
            Mood::Stressed
        } else if x >= 50.0 {
            Mood::Busy
        } else if x >= 25.0 {
            Mood::Content
        } else {
            Mood::Grazing
        };
        assert_eq!(Mood::from_level(x as u64), by_float, "level {x}");
    }
}

#[test]
fn mood_words_and_colours() {
    assert_eq!(Mood::Grazing.badge(), "GRAZING");
    assert_eq!(Mood::Panic.badge(), "PANIC");
    assert_eq!(Mood::Stressed.badge(), "STRESSED");
    assert_eq!(Mood::Content.phrase(), "mooo, all is well in the pasture");
    assert_eq!(Mood::Panic.phrase(), "MOOOO!! send hay, send help!!");
    assert_eq!(Mood::Grazing.color(), Color::Green);
    assert_eq!(Mood::Content.color(), Color::LightGreen);
    assert_eq!(Mood::Busy.color(), Color::Yellow);
    assert_eq!(Mood::Stressed.color(), Color::LightRed);
    assert_eq!(Mood::Panic.color(), Color::Red);
}

#[test]
fn cow_art_animates() {
    assert_eq!(Mood::Grazing.art(0)[1], r"        (--)\_______");
    assert_eq!(Mood::Grazing.art(30)[3], r"            ||----w |   ,");
    assert_eq!(Mood::Grazing.art(60)[1], r"        (oo)\_______");
    assert_eq!(Mood::Grazing.art(90), Mood::Grazing.art(0));
    assert_eq!(Mood::Content.art(31), Mood::Content.art(0));
    assert_eq!(Mood::Busy.art(45)[1], r"        (oO)\_______");
    assert_eq!(Mood::Panic.art(0)[1], r"    ` `  (@@)\_______");
    assert_eq!(Mood::Panic.art(30)[1], r"   ` ` ` (Xx)\_______");
    assert_eq!(Mood::Stressed.art(29)[0], r"     '   ^__^");
    assert_eq!(Mood::Grazing.art(0)[2], "        (__)\\       )\\/\\");
}

#[test]
fn theme_lookup() {
    assert_eq!(Theme::by_name("Forest").unwrap().name, "Forest");
    assert!(Theme::by_name("forest").is_none());
    assert!(Theme::by_name("").is_none());
    assert_eq!(Theme::from_config("  Retro\n").unwrap().name, "Retro");
    assert!(Theme::from_config("Neon").is_none());
    assert_eq!(Theme::midnight().index(), 1);
    assert_eq!(Theme::retro().index(), 5);
    let mut odd = Theme::sunset();
    odd.name = "Custom";
    assert_eq!(odd.index(), 0);
    assert_eq!(Theme::at(3).name, "Forest");
    assert_eq!(Theme::pasture().meadow, Color::Rgb(72, 158, 52));
    assert_eq!(Theme::arctic().danger, Color::Rgb(255, 90, 90));
}

#[test]
fn theme_colour_rules() {
    let t = Theme::pasture();
    assert_eq!(t.gauge_color(0), t.success);
    assert_eq!(t.gauge_color(59), t.success);
    assert_eq!(t.gauge_color(60), t.warning);
    assert_eq!(t.gauge_color(84), t.warning);
    assert_eq!(t.gauge_color(85), t.danger);
    assert_eq!(t.temp_color(10), t.sky);
    assert_eq!(t.temp_color(40), t.meadow);
    assert_eq!(t.temp_color(70), t.warning);
    assert_eq!(t.temp_color(95), t.danger);
    assert_eq!(t.conn_color("ESTAB"), t.success);
    assert_eq!(t.conn_color("LISTEN"), t.sky);
    assert_eq!(t.conn_color("TIME_WAIT"), t.warning);
    assert_eq!(t.conn_color("CLOSE_WAIT"), t.warning);
    assert_eq!(t.conn_color("CLOSING"), t.warning);
    assert_eq!(t.conn_color("SYN_SENT"), t.cream);
    assert_eq!(t.conn_color("estab"), t.cream);
}

fn reference_truncate(s: &str, max: usize) -> String {
    if max == 0 {
        return String::new();
    }
    if s.chars().count() <= max {
        s.to_string()
    } else {
        let mut out: String = s.chars().take(max.saturating_sub(1)).collect();
        out.push('…');
        out
    }
}

#[test]
fn truncate_cases() {
    assert_eq!(truncate("firefox", 0), "");
    assert_eq!(truncate("firefox", 7), "firefox");
    assert_eq!(truncate("firefox", 5), "fire…");
    assert_eq!(truncate("firefox", 1), "…");
    assert_eq!(truncate("黑风雷黑风雷", 4), "黑风雷…");
    for s in ["", "a", "hello world", "ünïcödé"] {
        for max in 0..14 {
            assert_eq!(truncate(s, max), reference_truncate(s, max));
        }
    }
}

#[test]
fn trim_mount_cases() {
    assert_eq!(trim_mount("/"), "/");
    assert_eq!(trim_mount("/home/cowboy12"), "/home/cowboy12");
    assert_eq!(trim_mount("/var/lib/docker/overlay"), "…ocker/overlay");
    assert_eq!(trim_mount("/var/lib/docker/overlay").chars().count(), 14);
}

#[test]
fn uptime_text() {
    assert_eq!(fmt_uptime(0), "0h 0m");
    assert_eq!(fmt_uptime(59), "0h 0m");
    assert_eq!(fmt_uptime(3661), "1h 1m");
    assert_eq!(fmt_uptime(86399), "23h 59m");
    assert_eq!(fmt_uptime(86400), "1d 0h 0m");
    assert_eq!(fmt_uptime(3 * 86400 + 5 * 3600 + 7 * 60 + 9), "3d 5h 7m");
    assert_eq!((12345.9f64) as u64, 12345);
    assert_eq!(fmt_uptime(12345.9f64 as u64), "3h 25m");
}

#[test]
fn decimal_text_matches_std() {
    for n in [0i32, 1, -1, 9, 10, -10, 12345, i32::MAX, i32::MIN] {
        assert_eq!(i32_to_string(n), n.to_string());
    }
    for n in [0u64, 7, 10, 99, 100, 1 << 40, u64::MAX] {
        assert_eq!(u64_to_string(n), n.to_string());
    }
}

#[test]
fn substring_and_order_helpers() {
    let hay: Vec<char> = "firefox".chars().collect();
    assert!(contains_chars(&hay, &['f', 'o']));
    assert!(contains_chars(&hay, &[]));
    assert!(!contains_chars(&hay, &['x', 'f']));
    assert!(!contains_chars(&['a'], &['a', 'b']));
    assert!(chars_less(&['a'], &['b']));
    assert!(chars_less(&['a'], &['a', 'a']));
    assert!(!chars_less(&['a', 'a'], &['a']));
    assert!(!chars_less(&['b'], &['b']));
    assert!(chars_less(&['Z'], &['a']));
    assert!(str_eq("moo", "moo"));
    assert!(!str_eq("moo", "mooo"));
}

#[test]
fn c_strings_stop_at_nul() {
    let buf: Vec<i8> = vec![b'e' as i8, b't' as i8, b'h' as i8, b'0' as i8, 0, b'x' as i8];
    assert_eq!(c_str(&buf), "eth0");
    assert_eq!(c_str(&[0i8, 65]), "");
    assert_eq!(c_str(&[b'l' as i8, b'o' as i8]), "lo");
    assert_eq!(c_str(&[-1i8, b'a' as i8, 0]), "\u{FFFD}a");
    assert_eq!(c_str(&[-61i8, -87, 0]), "é");
}

#[test]
fn visible_counts_clamp() {
    assert_eq!(visible_count(-5, 64), 0);
    assert_eq!(visible_count(0, 64), 0);
    assert_eq!(visible_count(10, 64), 10);
    assert_eq!(visible_count(64, 64), 64);
    assert_eq!(visible_count(1000, 64), 64);
}

#[test]
fn mem_zero_is_default() {
    assert_eq!(Mem::zero(), Mem::default());
}

#[test]
fn popup_is_centred_and_clipped() {
    let area = Area { x: 0, y: 0, width: 80, height: 24 };
    assert_eq!(centered_rect(48, 18, area), Area { x: 16, y: 3, width: 48, height: 18 });
    let small = Area { x: 5, y: 2, width: 40, height: 10 };
    assert_eq!(centered_rect(48, 18, small), Area { x: 5, y: 2, width: 40, height: 10 });
}

#[test]
fn core_grid_spreads_cores() {
    assert_eq!(core_grid(4), (2, 2));
    assert_eq!(core_grid(9), (3, 3));
    assert_eq!(core_grid(16), (3, 6));
    assert_eq!(core_grid(17), (4, 5));
    assert_eq!(core_grid(0), (2, 0));
    let (cols, per) = core_grid(10);
    let spans: Vec<(usize, usize)> = (0..cols).map(|c| grid_span(c, per, 10)).collect();
    assert_eq!(spans, vec![(0, 4), (4, 8), (8, 10)]);
    assert_eq!(grid_span(3, 2, 5), (6, 5));
}

#[test]
fn theme_config_trims_unicode_whitespace() {
    assert_eq!(Theme::from_config("\u{3000}Forest\u{a0}\t").unwrap().name, "Forest");
    assert_eq!(Theme::from_config("\u{2003}Arctic\u{2029}").unwrap().name, "Arctic");
    assert!(Theme::from_config("\u{200b}Arctic").is_none());
}
