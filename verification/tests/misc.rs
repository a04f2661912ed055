use desk_monitoring::history::{filled_history, push_history, HISTORY};
use desk_monitoring::hud::{glyph, rain_column_count, rain_column_length, xorshift};
use desk_monitoring::metrics::weather::{weather_place, weather_text};
use desk_monitoring::overlay::{layer_placement, panel_size, LayerPlacement};
use desk_monitoring::config::Position;
use desk_monitoring::theme::window_css;
use desk_monitoring::weather_fx::{unit_bits, Sky};
use std::collections::VecDeque;

#[test]
fn weather_texts() {
    assert_eq!(weather_text(0), "Clear sky");
    assert_eq!(weather_text(48), "Fog");
    assert_eq!(weather_text(57), "Freezing drizzle");
    assert_eq!(weather_text(82), "Rain showers");
    assert_eq!(weather_text(99), "Thunderstorm with hail");
    assert_eq!(weather_text(4), "Weather");
    assert_eq!(weather_text(-1), "Weather");
}

#[test]
fn weather_places() {
    assert_eq!(weather_place(Some(false), true, true, Some("Oslo".into())), Err("geolocation failed".to_string()));
    assert_eq!(weather_place(None, false, true, Some("Oslo".into())), Err("missing latitude".to_string()));
    assert_eq!(weather_place(Some(true), true, false, None), Err("missing longitude".to_string()));
    assert_eq!(weather_place(Some(true), true, true, Some(" Oslo ".into())), Ok(" Oslo ".to_string()));
    assert_eq!(weather_place(None, true, true, Some("  ".into())), Ok("Nearest city".to_string()));
    assert_eq!(weather_place(None, true, true, None), Ok("Nearest city".to_string()));
}

#[test]
fn skies() {
    assert_eq!(Sky::from_code(Some(0), true), Some(Sky::Sun));
    assert_eq!(Sky::from_code(Some(1), false), None);
    assert_eq!(Sky::from_code(Some(45), false), Some(Sky::Clouds));
    assert_eq!(Sky::from_code(Some(95), true), Some(Sky::Rain));
    assert_eq!(Sky::from_code(Some(77), true), Some(Sky::Snow));
    assert_eq!(Sky::from_code(Some(4), true), None);
    assert_eq!(Sky::from_code(None, true), None);
}

#[test]
fn sky_and_description_know_the_same_codes() {
    for code in -5..200 {
        assert_eq!(Sky::from_code(Some(code), true).is_some(), weather_text(code) != "Weather", "code {code}");
    }
}

#[test]
fn histories_keep_the_newest_samples() {
    let mut h: VecDeque<u32> = filled_history(0);
    assert_eq!(h.len(), HISTORY);
    for v in 1..=100u32 {
        push_history(&mut h, v);
        assert_eq!(h.len(), HISTORY);
        assert_eq!(*h.back().unwrap(), v);
    }
    assert_eq!(*h.front().unwrap(), 37);
    let mut short: VecDeque<u32> = VecDeque::new();
    push_history(&mut short, 5);
    push_history(&mut short, 6);
    assert_eq!(short, VecDeque::from(vec![5, 6]));
}

#[test]
fn glyphs_and_rng() {
    assert_eq!(glyph(0), '0');
    assert_eq!(glyph(2), 'A');
    assert_eq!(glyph(30), '>');
    assert_eq!(glyph(31), '0');
    let table = b"01ABCDEFGHKMNPQRSTUVWXYZ#$%+*<>";
    for seed in [5u64, 123456789, u64::MAX] {
        assert_eq!(glyph(seed), table[(seed as usize) % table.len()] as char);
    }
    let mut x = 0x9E37_79B9_7F4A_7C15u64;
    for _ in 0..1000 {
        let mut y = x;
        y ^= y << 13;
        y ^= y >> 7;
        y ^= y << 17;
        assert_eq!(xorshift(x), y);
        assert_ne!(y, 0);
        x = y;
    }
    assert_eq!(xorshift(0), 0);
}

#[test]
fn unit_bits_match_the_mixing_steps() {
    for seed in [0u64, 1, 11, 29, 41, u64::MAX] {
        let mut z = seed.wrapping_add(1).wrapping_mul(0x9E37_79B9_7F4A_7C15);
        z ^= z >> 32;
        z = z.wrapping_mul(0xBF58_476D_1CE4_E5B9);
        z ^= z >> 29;
        assert_eq!(unit_bits(seed), z);
    }
}

fn float_panel_size(screen_w: i32, screen_h: i32) -> (i32, i32) {
    let width = 380i32.min((screen_w as f64 * 0.32) as i32).max(300);
    let height = (screen_h - 24).min((screen_h as f64 * 0.92) as i32).max(400);
    (width, height)
}

#[test]
fn panel_sizes() {
    assert_eq!(panel_size(1440, 900), (380, 828));
    assert_eq!(panel_size(800, 600), (300, 552));
    assert_eq!(panel_size(1920, 1080), (380, 993));
    let mut x: u64 = 12345;
    let mut samples = vec![0, 1, -1, 25, -25, 300, 1000, 937, 1250, i32::MAX, i32::MIN + 24, -1000];
    for _ in 0..20000 {
        x ^= x << 13;
        x ^= x >> 7;
        x ^= x << 17;
        samples.push((x as i32).max(i32::MIN + 24));
        samples.push(((x >> 40) as i32) - 8000);
    }
    for &w in &samples {
        for &h in &[w, 900, 1080, 400, 25, -25] {
            assert_eq!(panel_size(w, h), float_panel_size(w, h), "w={w} h={h}");
        }
    }
}

#[test]
fn layer_placements() {
    let p = layer_placement(Position::Right, 1920, 1080, 380, 993);
    assert_eq!(
        p,
        LayerPlacement {
            anchor_left: false,
            anchor_right: true,
            anchor_top: true,
            anchor_bottom: false,
            margin_left: 0,
            margin_right: 12,
            margin_top: 43,
            margin_bottom: 0,
        }
    );
    let c = layer_placement(Position::Center, 1920, 1080, 380, 1070);
    assert_eq!((c.margin_left, c.margin_top), (770, 12));
    let b = layer_placement(Position::Bottom, 300, 1080, 380, 993);
    assert!(b.anchor_bottom && b.anchor_left && b.margin_bottom == 12 && b.margin_left == 12);
    let t = layer_placement(Position::Top, 1921, 1080, 380, 993);
    assert_eq!(t.margin_left, 770);
}

#[test]
fn stylesheet() {
    let css = window_css();
    assert!(css.contains("window.desk-monitor"));
    assert!(css.contains("background-color: #101418;"));
    assert!(css.contains("window.desk-setup button.suggested-action"));
}

#[test]
fn rain_columns() {
    for width in [-500i32, 0, 100, 143, 144, 161, 162, 380, 755, 756, 10000, i32::MAX, i32::MIN] {
        assert_eq!(rain_column_count(width), ((width / 18).clamp(8, 42)) as usize, "width {width}");
    }
    assert_eq!(rain_column_length(0), 8);
    assert_eq!(rain_column_length(11), 19);
    assert_eq!(rain_column_length(12), 8);
    assert_eq!(rain_column_length(u64::MAX), 8 + (u64::MAX as usize) % 12);
}
