use halo::config::{parse_hex_color, Config, MetricKind, Orientation};
use halo::tray::{
    apply_menu_action, display_name, is_selected, pad, palette, palette_labels, palette_name,
    picked_labels, swatch_label, MenuAction, MIN_LABEL_WIDTH,
};

#[test]
fn display_names() {
    assert_eq!(display_name(MetricKind::Cpu), "CPU");
    assert_eq!(display_name(MetricKind::Ram), "RAM");
    assert_eq!(display_name(MetricKind::Disk), "Disco");
    assert_eq!(display_name(MetricKind::Gpu), "GPU");
}

#[test]
fn pad_widens_short_labels() {
    let p = pad("RAM");
    assert_eq!(p.chars().count(), MIN_LABEL_WIDTH);
    assert_eq!(p, format!("RAM{}", " ".repeat(19)));
    let long = "Iniciar con el sistema y algo más";
    assert_eq!(pad(long), long);
    assert_eq!(pad("Iniciar con el sistema"), "Iniciar con el sistema");
    // Width counts characters, not bytes.
    let checked = pad("\u{2713} Rojo");
    assert_eq!(checked.chars().count(), 22);
    assert_eq!(pad(&pad("Salir")), pad("Salir"));
    assert_eq!(pad("").chars().count(), 22);
}

#[test]
fn swatch_labels() {
    assert_eq!(swatch_label("Rojo", true), "\u{2713} Rojo");
    assert_eq!(swatch_label("Rojo", false), "Rojo");
}

#[test]
fn selection_ignores_ascii_case() {
    assert!(is_selected(Some("#e63027"), "#000000", "#E63027"));
    assert!(!is_selected(Some("#4361EE"), "#E63027", "#E63027"));
    assert!(is_selected(None, "#E63027", "#e63027"));
    assert!(!is_selected(None, "#E63027", "#FF8C42"));
    assert!(!is_selected(Some("#E6302"), "#E63027", "#E63027"));
}

#[test]
fn palette_contents() {
    let p = palette();
    assert_eq!(p.len(), 8);
    assert_eq!(p[0], ("Rojo", "#E63027"));
    assert_eq!(p[5], ("Azul", "#4361EE"));
    assert_eq!(p[7], ("Rosa", "#F15BB5"));
    assert_eq!(palette_name("#4361EE"), "Azul");
    assert_eq!(palette_name("#4361ee"), "?");
    assert_eq!(palette_name("#000000"), "?");
}

#[test]
fn menu_labels_check_the_active_colour() {
    let labels = palette_labels(None, "#E63027");
    assert_eq!(labels.len(), 8);
    assert_eq!(labels[0], pad("\u{2713} Rojo"));
    assert_eq!(labels[1], pad("Naranja"));
    let labels = palette_labels(Some("#9b5de5"), "#E63027");
    assert_eq!(labels[0], pad("Rojo"));
    assert_eq!(labels[6], pad("\u{2713} Violeta"));
    let labels = palette_labels(Some("#123456"), "#E63027");
    assert!(labels.iter().all(|l| !l.starts_with('\u{2713}')));
}

#[test]
fn picking_a_colour_checks_only_it() {
    let labels = picked_labels("#2EC4B6");
    assert_eq!(labels.len(), 8);
    for (i, l) in labels.iter().enumerate() {
        assert_eq!(l.starts_with('\u{2713}'), i == 4, "label {i}: {l}");
    }
    assert_eq!(labels[4], pad("\u{2713} Turquesa"));
    assert_eq!(picked_labels("#2EC4B6"), palette_labels(Some("#2EC4B6"), "#E63027"));
}

#[test]
fn menu_actions_change_the_config() {
    let mut c = Config::default();
    apply_menu_action(&mut c, MenuAction::SetShown(MetricKind::Ram, false));
    assert_eq!(
        c.enabled_kinds(),
        vec![MetricKind::Cpu, MetricKind::Disk, MetricKind::Gpu]
    );
    apply_menu_action(&mut c, MenuAction::SetShown(MetricKind::Ram, true));
    assert!(c.enabled_kinds().contains(&MetricKind::Ram));
    apply_menu_action(&mut c, MenuAction::SetColor(MetricKind::Gpu, "#9B5DE5".to_string()));
    assert_eq!(c.gpu.color.as_deref(), Some("#9B5DE5"));
    assert_eq!(c.metric_color(MetricKind::Gpu), parse_hex_color("#9B5DE5").unwrap());
    assert_eq!(c.metric_color(MetricKind::Cpu), parse_hex_color("#E63027").unwrap());
    apply_menu_action(&mut c, MenuAction::SetOrientation(Orientation::Vertical));
    assert_eq!(c.widget.orientation, Orientation::Vertical);
    for (_, hex) in palette() {
        assert!(parse_hex_color(hex).is_some());
    }
}
