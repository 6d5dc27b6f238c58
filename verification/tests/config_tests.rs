use halo::config::{
    parse_hex_color, Color32, Config, F32Bits, MetricConfig, MetricKind, Orientation, ThemeConfig,
    WidgetConfig, DEFAULT_BACKGROUND_COLOR, DEFAULT_PROGRESS_COLOR, DEFAULT_RING_BACKGROUND_COLOR,
    DEFAULT_TEXT_COLOR,
};

fn rgb(r: u8, g: u8, b: u8) -> Color32 {
    Color32 { r, g, b, a: 255 }
}

#[test]
fn parse_six_digits() {
    assert_eq!(parse_hex_color("#E63027"), Some(rgb(0xE6, 0x30, 0x27)));
    assert_eq!(parse_hex_color("#4361ee"), Some(rgb(0x43, 0x61, 0xEE)));
    assert_eq!(parse_hex_color("#000000"), Some(rgb(0, 0, 0)));
}

#[test]
fn parse_ignores_surrounding_whitespace() {
    assert_eq!(parse_hex_color("  #e63027 \n"), Some(rgb(0xE6, 0x30, 0x27)));
    assert_eq!(parse_hex_color("\t#FFFFFF\u{3000}"), Some(rgb(255, 255, 255)));
}

#[test]
fn parse_eight_digits_premultiplies_alpha() {
    // egui's fixed-point premultiplication of (0xE6, 0x30, 0x27) by 0x80.
    assert_eq!(
        parse_hex_color("#E6302780"),
        Some(Color32 { r: 115, g: 24, b: 20, a: 128 })
    );
    assert_eq!(parse_hex_color("#E63027FF"), Some(rgb(0xE6, 0x30, 0x27)));
    assert_eq!(
        parse_hex_color("#E6302700"),
        Some(Color32 { r: 0, g: 0, b: 0, a: 0 })
    );
}

#[test]
fn parse_round_trips_upper_hex() {
    for (r, g, b) in [(0u8, 0u8, 0u8), (10, 255, 16), (0xE6, 0x30, 0x27), (255, 1, 128)] {
        let text = format!("#{r:02X}{g:02X}{b:02X}");
        assert_eq!(parse_hex_color(&text), Some(rgb(r, g, b)), "{text}");
    }
}

#[test]
fn parse_plus_sign_channels() {
    // A channel is two hex digits; a sign is not a digit.
    assert_eq!(parse_hex_color("#+F+F+F"), None);
    assert_eq!(parse_hex_color("#+1+2+3+4"), None);
    assert_eq!(parse_hex_color("#-F0000"), None);
    assert_eq!(parse_hex_color("#++0000"), None);
}

#[test]
fn parse_rejects_malformed() {
    assert_eq!(parse_hex_color(""), None);
    assert_eq!(parse_hex_color("#"), None);
    assert_eq!(parse_hex_color("E63027"), None);
    assert_eq!(parse_hex_color("#E6302"), None);
    assert_eq!(parse_hex_color("#E630271"), None);
    assert_eq!(parse_hex_color("#GG0000"), None);
    assert_eq!(parse_hex_color("#E6 027"), None);
    assert_eq!(parse_hex_color("#FFFFF\u{e9}"), None);
    assert_eq!(parse_hex_color("# E63027"), None);
}

#[test]
fn metric_ids() {
    assert_eq!(MetricKind::Cpu.id(), "cpu");
    assert_eq!(MetricKind::Ram.id(), "ram");
    assert_eq!(MetricKind::Disk.id(), "disk");
    assert_eq!(MetricKind::Gpu.id(), "gpu");
}

#[test]
fn default_config() {
    let c = Config::default();
    assert_eq!(c.theme.progress_color, "#E63027");
    assert_eq!(c.theme.background_color, DEFAULT_BACKGROUND_COLOR);
    assert_eq!(c.theme.text_color, DEFAULT_TEXT_COLOR);
    assert_eq!(c.theme.ring_background_color, DEFAULT_RING_BACKGROUND_COLOR);
    assert_eq!(f32::from_bits(c.theme.ring_width.0), 3.6);
    assert_eq!(f32::from_bits(c.widget.size.0), 57.96);
    assert_eq!(f32::from_bits(c.widget.opacity.0), 0.90);
    assert!(c.widget.always_on_top);
    assert!(c.widget.show_label);
    assert_eq!(c.widget.orientation, Orientation::Horizontal);
    for k in [MetricKind::Cpu, MetricKind::Ram, MetricKind::Disk, MetricKind::Gpu] {
        assert!(c.metric(k).enabled);
        assert!(c.metric(k).position.is_none());
        assert!(c.metric(k).color.is_none());
    }
    assert!(!c.network.enabled);
    assert_eq!(Orientation::default(), Orientation::Horizontal);
    let m = MetricConfig::default();
    assert!(!m.enabled && m.position.is_none() && m.color.is_none());
    let w = WidgetConfig::default();
    assert_eq!(w.size, F32Bits(57.96f32.to_bits()));
}

#[test]
fn enabled_kinds_in_fixed_order() {
    let mut c = Config::default();
    assert_eq!(
        c.enabled_kinds(),
        vec![MetricKind::Cpu, MetricKind::Ram, MetricKind::Disk, MetricKind::Gpu]
    );
    c.metric_mut(MetricKind::Ram).enabled = false;
    c.metric_mut(MetricKind::Gpu).enabled = false;
    assert_eq!(c.enabled_kinds(), vec![MetricKind::Cpu, MetricKind::Disk]);
    c.metric_mut(MetricKind::Cpu).enabled = false;
    c.metric_mut(MetricKind::Disk).enabled = false;
    assert!(c.enabled_kinds().is_empty());
}

#[test]
fn metric_mut_writes_only_its_metric() {
    let mut c = Config::default();
    c.metric_mut(MetricKind::Disk).color = Some("#4CAF50".to_string());
    c.metric_mut(MetricKind::Disk).position = Some([F32Bits(1), F32Bits(2)]);
    assert_eq!(c.metric(MetricKind::Disk).color.as_deref(), Some("#4CAF50"));
    assert_eq!(c.disk.position, Some([F32Bits(1), F32Bits(2)]));
    assert!(c.metric(MetricKind::Cpu).color.is_none());
    assert!(c.gpu.position.is_none());
}

#[test]
fn metric_color_own_or_theme() {
    let mut c = Config::default();
    assert_eq!(c.metric_color(MetricKind::Cpu), rgb(0xE6, 0x30, 0x27));
    c.metric_mut(MetricKind::Cpu).color = Some("#4361EE".to_string());
    assert_eq!(c.metric_color(MetricKind::Cpu), rgb(0x43, 0x61, 0xEE));
    c.metric_mut(MetricKind::Cpu).color = Some("azul".to_string());
    assert_eq!(c.metric_color(MetricKind::Cpu), rgb(0xE6, 0x30, 0x27));
    c.theme.progress_color = "#2EC4B6".to_string();
    assert_eq!(c.metric_color(MetricKind::Cpu), rgb(0x2E, 0xC4, 0xB6));
    assert_eq!(c.metric_color(MetricKind::Ram), rgb(0x2E, 0xC4, 0xB6));
}

#[test]
fn resolve_falls_back_to_defaults() {
    let t = ThemeConfig::default().resolve();
    assert_eq!(t.progress, rgb(0xE6, 0x30, 0x27));
    assert_eq!(t.background, rgb(0x20, 0x20, 0x20));
    assert_eq!(t.text, rgb(0xFF, 0xFF, 0xFF));
    assert_eq!(t.ring_background, rgb(0x3A, 0x3A, 0x3A));
    let mut bad = ThemeConfig::default();
    bad.progress_color = "red".to_string();
    bad.text_color = "#00000080".to_string();
    bad.background_color = "#123".to_string();
    let r = bad.resolve();
    assert_eq!(r.progress, parse_hex_color(DEFAULT_PROGRESS_COLOR).unwrap());
    assert_eq!(r.background, rgb(0x20, 0x20, 0x20));
    assert_eq!(r.text, Color32 { r: 0, g: 0, b: 0, a: 128 });
}
