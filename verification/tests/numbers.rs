use cowtui::sys::{bits_of_order_key, order_key_of_bits, Signal};
use cowtui::ui::widgets::{fmt_kb, fmt_rate};

fn float_kb(kb: u64) -> String {
    let mb = kb as f64 / 1024.0;
    if mb < 1024.0 {
        format!("{:.0}M", mb)
    } else {
        format!("{:.1}G", mb / 1024.0)
    }
}

fn float_rate(n: u64) -> String {
    if n < 1_000 {
        format!("{}", n)
    } else if n < 1_000_000 {
        format!("{:.1}K", n as f64 / 1_000.0)
    } else {
        format!("{:.1}M", n as f64 / 1_000_000.0)
    }
}

/// A small deterministic generator for spread-out test values.
fn spread(count: usize, seed: u64) -> Vec<u64> {
    let mut x = seed;
    (0..count)
        .map(|_| {
            x ^= x << 13;
            x ^= x >> 7;
            x ^= x << 17;
            x
        })
        .collect()
}

#[test]
fn fmt_kb_examples() {
    assert_eq!(fmt_kb(0), "0M");
    assert_eq!(fmt_kb(512), "0M");
    assert_eq!(fmt_kb(1536), "2M");
    assert_eq!(fmt_kb(2560), "2M");
    assert_eq!(fmt_kb(1023 * 1024), "1023M");
    assert_eq!(fmt_kb(1024 * 1024 - 1), "1024M");
    assert_eq!(fmt_kb(1024 * 1024), "1.0G");
    assert_eq!(fmt_kb(16 * 1024 * 1024 + 512 * 1024), "16.5G");
    assert_eq!(fmt_kb(u64::MAX), float_kb(u64::MAX));
}

#[test]
fn fmt_kb_matches_float_formatting() {
    for kb in 0..(3 << 20) {
        if kb % 7 == 0 || kb % 1024 < 3 || kb % 1024 > 1020 || (kb % 1024) / 2 == 256 {
            assert_eq!(fmt_kb(kb), float_kb(kb), "kb = {kb}");
        }
    }
    for kb in spread(20000, 0x9e3779b97f4a7c15) {
        assert_eq!(fmt_kb(kb), float_kb(kb), "kb = {kb}");
        let small = kb >> 30;
        assert_eq!(fmt_kb(small), float_kb(small), "kb = {small}");
        let mid = kb >> 12;
        assert_eq!(fmt_kb(mid), float_kb(mid), "kb = {mid}");
    }
    for shift in 50..64 {
        let base = 1u64 << shift;
        for d in 0..4096u64 {
            let kb = base.wrapping_add(d * 97).wrapping_sub(2048);
            assert_eq!(fmt_kb(kb), float_kb(kb), "kb = {kb}");
        }
    }
    for d in 0..5000u64 {
        let kb = u64::MAX - d;
        assert_eq!(fmt_kb(kb), float_kb(kb), "kb = {kb}");
    }
}

#[test]
fn fmt_rate_examples() {
    assert_eq!(fmt_rate(0), "0");
    assert_eq!(fmt_rate(999), "999");
    assert_eq!(fmt_rate(1000), "1.0K");
    assert_eq!(fmt_rate(1050), float_rate(1050));
    assert_eq!(fmt_rate(1250), "1.2K");
    assert_eq!(fmt_rate(1350), float_rate(1350));
    assert_eq!(fmt_rate(999_999), "1000.0K");
    assert_eq!(fmt_rate(1_000_000), "1.0M");
    assert_eq!(fmt_rate(2_250_000), "2.2M");
    assert_eq!(fmt_rate(u64::MAX), float_rate(u64::MAX));
}

#[test]
fn fmt_rate_matches_float_formatting() {
    for n in 0..200_000u64 {
        assert_eq!(fmt_rate(n), float_rate(n), "n = {n}");
    }
    for n in (200_000..1_000_000u64).step_by(7) {
        assert_eq!(fmt_rate(n), float_rate(n), "n = {n}");
    }
    for k in 0..20_000u64 {
        let n = 1_000_000 + k * 50_000;
        assert_eq!(fmt_rate(n), float_rate(n), "n = {n}");
    }
    for n in spread(20000, 0x2545f4914f6cdd1d) {
        assert_eq!(fmt_rate(n), float_rate(n), "n = {n}");
        let m = n >> 20;
        assert_eq!(fmt_rate(m), float_rate(m), "n = {m}");
        let s = n >> 40;
        assert_eq!(fmt_rate(s), float_rate(s), "n = {s}");
    }
    for shift in 52..64 {
        for d in 0..2048u64 {
            let n = (1u64 << shift).wrapping_add(d).wrapping_sub(1024);
            assert_eq!(fmt_rate(n), float_rate(n), "n = {n}");
        }
    }
}

#[test]
fn order_keys_sort_like_the_floats() {
    let values = [-250.5f64, -3.0, -0.5, 0.0, 0.25, 1.0, 12.5, 99.9, 400.0];
    let keys: Vec<u64> = values.iter().map(|v| order_key_of_bits(v.to_bits())).collect();
    for i in 0..values.len() {
        assert_eq!(f64::from_bits(bits_of_order_key(keys[i])), values[i]);
        for j in 0..values.len() {
            assert_eq!(keys[i] < keys[j], values[i] < values[j]);
        }
    }
    assert_eq!(order_key_of_bits(0.0f64.to_bits()), 1u64 << 63);
}

#[test]
fn signal_numbers() {
    assert_eq!(Signal::Term.number(), 15);
    assert_eq!(Signal::Kill.number(), 9);
    assert_eq!(Signal::Int.number(), 2);
    assert_eq!(Signal::Hup.number(), 1);
}
