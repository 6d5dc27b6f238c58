//! Labels of the tray menu: metric names, padding, colour swatches.

use vstd::prelude::*;

use crate::config::{
    Config, MetricConfig, MetricKind, Orientation, WidgetConfig, lemma_enabled_kinds,
    spec_parse_hex_color,
};
use crate::text::{chars_eq_ignore_ascii_case, chars_of, eq_ignore_ascii_case, opt_chars};

verus! {

/// Minimum width, in characters, of a menu item's label.
pub const MIN_LABEL_WIDTH: usize = 22;

/// Name of a metric as shown in the menu.
pub open spec fn spec_display_name(kind: MetricKind) -> Seq<char> {
    match kind {
        MetricKind::Cpu => "CPU"@,
        MetricKind::Ram => "RAM"@,
        MetricKind::Disk => "Disco"@,
        MetricKind::Gpu => "GPU"@,
    }
}

/// Name of a metric as shown in the menu.
pub fn display_name(kind: MetricKind) -> (r: &'static str)
    ensures
        r@ == spec_display_name(kind),
{
    match kind {
        MetricKind::Cpu => "CPU",
        MetricKind::Ram => "RAM",
        MetricKind::Disk => "Disco",
        MetricKind::Gpu => "GPU",
    }
}

/// `n` spaces.
pub open spec fn spaces(n: nat) -> Seq<char> {
    Seq::new(n, |i: int| ' ')
}

/// `label` followed by spaces up to `MIN_LABEL_WIDTH` characters; a label
/// that long or longer is kept as it is.
pub open spec fn spec_pad(label: Seq<char>) -> Seq<char> {
    if label.len() >= MIN_LABEL_WIDTH {
        label
    } else {
        label + spaces((MIN_LABEL_WIDTH - label.len()) as nat)
    }
}

/// Widens a label with trailing spaces to at least `MIN_LABEL_WIDTH`
/// characters (native menus shrink to their content).
pub fn pad(label: &str) -> (r: String)
    ensures
        r@ == spec_pad(label@),
{
    let len = label.unicode_len();
    let mut s = label.to_owned();
    if len >= MIN_LABEL_WIDTH {
        return s;
    }
    let mut i = len;
    proof {
        reveal_strlit(" ");
        assert(label@ + spaces(0) =~= label@);
    }
    while i < MIN_LABEL_WIDTH
        invariant
            len == label@.len(),
            len <= i <= MIN_LABEL_WIDTH,
            s@ == label@ + spaces((i - len) as nat),
            " "@ == seq![' '],
        decreases MIN_LABEL_WIDTH - i,
    {
        s.append(" ");
        assert(label@ + spaces((i - len) as nat) + seq![' '] =~= label@ + spaces((i + 1 - len) as nat));
        i += 1;
    }
    s
}

/// Label of a colour swatch: its name, after a check mark when selected.
pub open spec fn spec_swatch_label(name: Seq<char>, selected: bool) -> Seq<char> {
    if selected {
        "\u{2713} "@ + name
    } else {
        name
    }
}

/// Label of a colour swatch: its name, after a check mark when selected.
pub fn swatch_label(name: &str, selected: bool) -> (r: String)
    ensures
        r@ == spec_swatch_label(name@, selected),
{
    if selected {
        let mut s = "\u{2713} ".to_owned();
        s.append(name);
        s
    } else {
        name.to_owned()
    }
}

/// Whether the swatch `hex` is the active colour: the configured one, or
/// the theme's default when none is configured; letters compare without
/// regard to ASCII case.
pub open spec fn spec_is_selected(
    configured: Option<Seq<char>>,
    theme_default: Seq<char>,
    hex: Seq<char>,
) -> bool {
    match configured {
        Some(c) => eq_ignore_ascii_case(c, hex),
        None => eq_ignore_ascii_case(theme_default, hex),
    }
}

/// Whether the swatch `hex` is the active colour; `None` means the theme's
/// default colour is active.
pub fn is_selected(configured: Option<&str>, theme_default: &str, hex: &str) -> (r: bool)
    ensures
        r == spec_is_selected(opt_chars(configured), theme_default@, hex@),
{
    let h = chars_of(hex);
    match configured {
        Some(c) => chars_eq_ignore_ascii_case(&chars_of(c), &h),
        None => chars_eq_ignore_ascii_case(&chars_of(theme_default), &h),
    }
}

/// The curated palette of arc colours: (name, "#RRGGBB").
pub open spec fn spec_palette() -> Seq<(Seq<char>, Seq<char>)> {
    seq![
        ("Rojo"@, "#E63027"@),
        ("Naranja"@, "#FF8C42"@),
        ("Amarillo"@, "#FFC857"@),
        ("Verde"@, "#4CAF50"@),
        ("Turquesa"@, "#2EC4B6"@),
        ("Azul"@, "#4361EE"@),
        ("Violeta"@, "#9B5DE5"@),
        ("Rosa"@, "#F15BB5"@),
    ]
}

/// The curated palette of arc colours: (name, "#RRGGBB").
pub fn palette() -> (v: Vec<(&'static str, &'static str)>)
    ensures
        v@.len() == spec_palette().len(),
        forall|i: int|
            0 <= i < v@.len() ==> (#[trigger] v@[i].0@, v@[i].1@) == spec_palette()[i],
{
    let v = vec![
        ("Rojo", "#E63027"),
        ("Naranja", "#FF8C42"),
        ("Amarillo", "#FFC857"),
        ("Verde", "#4CAF50"),
        ("Turquesa", "#2EC4B6"),
        ("Azul", "#4361EE"),
        ("Violeta", "#9B5DE5"),
        ("Rosa", "#F15BB5"),
    ];
    v
}

/// Labels of the palette's swatches, padded, with the active one checked.
pub open spec fn spec_palette_labels(configured: Option<Seq<char>>, theme_default: Seq<char>) -> Seq<
    Seq<char>,
> {
    spec_palette().map_values(
        |e: (Seq<char>, Seq<char>)|
            spec_pad(spec_swatch_label(e.0, spec_is_selected(configured, theme_default, e.1))),
    )
}

/// Labels of the palette's swatches of one metric, padded, with the active
/// colour checked.
pub fn palette_labels(configured: Option<&str>, theme_default: &str) -> (r: Vec<String>)
    ensures
        r@.len() == spec_palette().len(),
        forall|i: int|
            0 <= i < r@.len() ==> #[trigger] r@[i]@ == spec_palette_labels(
                opt_chars(configured),
                theme_default@,
            )[i],
{
    let pal = palette();
    let mut r: Vec<String> = Vec::new();
    let mut i: usize = 0;
    while i < pal.len()
        invariant
            pal@.len() == spec_palette().len(),
            forall|k: int|
                0 <= k < pal@.len() ==> (#[trigger] pal@[k].0@, pal@[k].1@) == spec_palette()[k],
            i <= pal@.len(),
            r@.len() == i,
            forall|k: int|
                0 <= k < i ==> #[trigger] r@[k]@ == spec_palette_labels(
                    opt_chars(configured),
                    theme_default@,
                )[k],
        decreases pal@.len() - i,
    {
        let (name, hex) = pal[i];
        assert((pal@[i as int].0@, pal@[i as int].1@) == spec_palette()[i as int]);
        let selected = is_selected(configured, theme_default, hex);
        r.push(pad(swatch_label(name, selected).as_str()));
        i += 1;
    }
    r
}

/// Name of the palette colour written exactly `hex`, or "?".
pub open spec fn spec_palette_name(hex: Seq<char>) -> Seq<char> {
    let i = spec_first_with_hex(hex, 0);
    if i < spec_palette().len() {
        spec_palette()[i].0
    } else {
        "?"@
    }
}

/// Index of the first palette entry at or after `from` written exactly
/// `hex`, or the palette's length.
pub open spec fn spec_first_with_hex(hex: Seq<char>, from: int) -> int
    decreases spec_palette().len() - from,
{
    if from < 0 || from >= spec_palette().len() {
        spec_palette().len() as int
    } else if spec_palette()[from].1 == hex {
        from
    } else {
        spec_first_with_hex(hex, from + 1)
    }
}

/// Name of the palette colour written exactly `hex`, or "?".
pub fn palette_name(hex: &str) -> (r: &'static str)
    ensures
        r@ == spec_palette_name(hex@),
{
    let pal = palette();
    let target = hex.to_owned();
    let mut i: usize = 0;
    while i < pal.len()
        invariant
            pal@.len() == spec_palette().len(),
            forall|k: int|
                0 <= k < pal@.len() ==> (#[trigger] pal@[k].0@, pal@[k].1@) == spec_palette()[k],
            i <= pal@.len(),
            target@ == hex@,
            spec_first_with_hex(hex@, 0) == spec_first_with_hex(hex@, i as int),
        decreases pal@.len() - i,
    {
        let (name, h) = pal[i];
        assert((pal@[i as int].0@, pal@[i as int].1@) == spec_palette()[i as int]);
        if h.to_owned() == target {
            return name;
        }
        i += 1;
    }
    proof {
        reveal_strlit("?");
    }
    "?"
}

/// Labels of the palette's swatches after `picked` was chosen: each swatch
/// is named from the palette and checked when written exactly `picked`.
pub open spec fn spec_picked_labels(picked: Seq<char>) -> Seq<Seq<char>> {
    spec_palette().map_values(
        |e: (Seq<char>, Seq<char>)| spec_pad(spec_swatch_label(spec_palette_name(e.1), e.1 == picked)),
    )
}

/// Labels of the palette's swatches after the colour `picked` was chosen.
pub fn picked_labels(picked: &str) -> (r: Vec<String>)
    ensures
        r@.len() == spec_palette().len(),
        forall|i: int| 0 <= i < r@.len() ==> #[trigger] r@[i]@ == spec_picked_labels(picked@)[i],
{
    let pal = palette();
    let target = picked.to_owned();
    let mut r: Vec<String> = Vec::new();
    let mut i: usize = 0;
    while i < pal.len()
        invariant
            pal@.len() == spec_palette().len(),
            forall|k: int|
                0 <= k < pal@.len() ==> (#[trigger] pal@[k].0@, pal@[k].1@) == spec_palette()[k],
            i <= pal@.len(),
            target@ == picked@,
            r@.len() == i,
            forall|k: int|
                0 <= k < i ==> #[trigger] r@[k]@ == spec_picked_labels(picked@)[k],
        decreases pal@.len() - i,
    {
        let (_, hex) = pal[i];
        assert((pal@[i as int].0@, pal@[i as int].1@) == spec_palette()[i as int]);
        let name = palette_name(hex);
        let selected = hex.to_owned() == target;
        r.push(pad(swatch_label(name, selected).as_str()));
        i += 1;
    }
    r
}

} // verus!

verus! {

/// A padded label has at least `MIN_LABEL_WIDTH` characters, starts with
/// the label and continues with spaces only; padding twice pads once.
pub proof fn lemma_pad(label: Seq<char>)
    ensures
        spec_pad(label).len() == if label.len() >= MIN_LABEL_WIDTH {
            label.len()
        } else {
            MIN_LABEL_WIDTH as nat
        },
        spec_pad(label).subrange(0, label.len() as int) == label,
        forall|i: int| label.len() <= i < spec_pad(label).len() ==> #[trigger] spec_pad(label)[i] == ' ',
        spec_pad(spec_pad(label)) == spec_pad(label),
{
    assert(spec_pad(label).subrange(0, label.len() as int) =~= label);
}

/// Whether a swatch is selected does not depend on the order of the two
/// colours compared, and a colour always selects its own swatch.
pub proof fn lemma_is_selected_symmetric(c: Seq<char>, d: Seq<char>, hex: Seq<char>)
    ensures
        spec_is_selected(Some(c), d, hex) == spec_is_selected(Some(hex), d, c),
        spec_is_selected(Some(hex), d, hex),
        spec_is_selected(None, hex, hex),
{
    if spec_is_selected(Some(c), d, hex) {
        assert forall|i: int| 0 <= i < hex.len() implies crate::text::ascii_lower(hex[i])
            == crate::text::ascii_lower(c[i]) by {
            assert(crate::text::ascii_lower(c[i]) == crate::text::ascii_lower(hex[i]));
        }
    }
}

proof fn lemma_palette_hex_distinct(i: int, j: int)
    requires
        0 <= i < spec_palette().len(),
        0 <= j < spec_palette().len(),
        eq_ignore_ascii_case(spec_palette()[i].1, spec_palette()[j].1),
    ensures
        i == j,
{
    reveal_strlit("#E63027");
    reveal_strlit("#FF8C42");
    reveal_strlit("#FFC857");
    reveal_strlit("#4CAF50");
    reveal_strlit("#2EC4B6");
    reveal_strlit("#4361EE");
    reveal_strlit("#9B5DE5");
    reveal_strlit("#F15BB5");
    let a = spec_palette()[i].1;
    let b = spec_palette()[j].1;
    assert(crate::text::ascii_lower(a[1]) == crate::text::ascii_lower(b[1]));
    assert(crate::text::ascii_lower(a[2]) == crate::text::ascii_lower(b[2]));
    assert(crate::text::ascii_lower(a[3]) == crate::text::ascii_lower(b[3]));
}

proof fn lemma_first_with_hex(p: int, from: int)
    requires
        0 <= from <= p < spec_palette().len(),
    ensures
        spec_first_with_hex(spec_palette()[p].1, from) == p,
    decreases p - from,
{
    if from < p {
        if spec_palette()[from].1 == spec_palette()[p].1 {
            lemma_palette_hex_distinct(from, p);
        }
        lemma_first_with_hex(p, from + 1);
    }
}

/// After a palette colour is picked, exactly its swatch is checked, and the
/// labels are those the menu is first built with for that colour.
pub proof fn lemma_pick_checks_only_picked(p: int, theme_default: Seq<char>)
    requires
        0 <= p < spec_palette().len(),
    ensures
        forall|i: int|
            0 <= i < spec_palette().len() ==> #[trigger] spec_picked_labels(spec_palette()[p].1)[i]
                == spec_pad(spec_swatch_label(spec_palette()[i].0, i == p)),
        spec_picked_labels(spec_palette()[p].1) == spec_palette_labels(
            Some(spec_palette()[p].1),
            theme_default,
        ),
{
    let h = spec_palette()[p].1;
    assert forall|i: int|
        0 <= i < spec_palette().len() implies #[trigger] spec_picked_labels(h)[i] == spec_pad(
        spec_swatch_label(spec_palette()[i].0, i == p),
    ) && spec_palette_labels(Some(h), theme_default)[i] == spec_pad(
        spec_swatch_label(spec_palette()[i].0, i == p),
    ) by {
        lemma_first_with_hex(i, 0);
        if spec_palette()[i].1 == h {
            lemma_palette_hex_distinct(i, p);
        }
        if eq_ignore_ascii_case(h, spec_palette()[i].1) {
            lemma_palette_hex_distinct(p, i);
        }
        lemma_is_selected_symmetric(h, theme_default, h);
    }
    assert(spec_picked_labels(h) =~= spec_palette_labels(Some(h), theme_default));
}

} // verus!

verus! {

/// A change of the configuration asked for from the tray menu.
pub enum MenuAction {
    /// Show (`true`) or hide a metric.
    SetShown(MetricKind, bool),
    /// Give a metric's arc this colour ("#RRGGBB").
    SetColor(MetricKind, String),
    /// Lay the widgets out in a row or a column.
    SetOrientation(Orientation),
}

/// The configuration after a menu action.
pub open spec fn spec_apply_menu_action(config: Config, action: MenuAction) -> Config {
    match action {
        MenuAction::SetShown(kind, shown) => config.spec_with_metric(
            kind,
            MetricConfig { enabled: shown, ..config.spec_metric(kind) },
        ),
        MenuAction::SetColor(kind, hex) => config.spec_with_metric(
            kind,
            MetricConfig { color: Some(hex), ..config.spec_metric(kind) },
        ),
        MenuAction::SetOrientation(o) => Config {
            widget: WidgetConfig { orientation: o, ..config.widget },
            ..config
        },
    }
}

/// Applies a change asked for from the tray menu to the configuration.
pub fn apply_menu_action(config: &mut Config, action: MenuAction)
    ensures
        *final(config) == spec_apply_menu_action(*old(config), action),
{
    match action {
        MenuAction::SetShown(kind, shown) => {
            config.metric_mut(kind).enabled = shown;
        },
        MenuAction::SetColor(kind, hex) => {
            config.metric_mut(kind).color = Some(hex);
        },
        MenuAction::SetOrientation(o) => {
            config.widget.orientation = o;
        },
    }
}

/// Hiding a metric from the menu removes it from the enabled metrics, and
/// showing it adds it; the other metrics stay as they were.
pub proof fn lemma_set_shown(config: Config, kind: MetricKind, shown: bool, other: MetricKind)
    ensures
        spec_apply_menu_action(config, MenuAction::SetShown(kind, shown)).spec_enabled_kinds().contains(
            kind,
        ) == shown,
        other != kind ==> spec_apply_menu_action(
            config,
            MenuAction::SetShown(kind, shown),
        ).spec_enabled_kinds().contains(other) == config.spec_enabled_kinds().contains(other),
{
    let c2 = spec_apply_menu_action(config, MenuAction::SetShown(kind, shown));
    lemma_enabled_kinds(config);
    lemma_enabled_kinds(c2);
}

/// Picking a valid colour for a metric makes it the colour of its arc, and
/// leaves the arcs of the other metrics as they were.
pub proof fn lemma_set_color(config: Config, kind: MetricKind, hex: String, other: MetricKind)
    requires
        spec_parse_hex_color(hex@) is Some,
    ensures
        Some(spec_apply_menu_action(config, MenuAction::SetColor(kind, hex)).spec_metric_color(kind))
            == spec_parse_hex_color(hex@),
        other != kind ==> spec_apply_menu_action(
            config,
            MenuAction::SetColor(kind, hex),
        ).spec_metric_color(other) == config.spec_metric_color(other),
{
}

/// Every colour of the palette is a valid colour.
pub proof fn lemma_palette_colors_valid(i: int)
    requires
        0 <= i < spec_palette().len(),
    ensures
        spec_parse_hex_color(spec_palette()[i].1) is Some,
{
    reveal_strlit("#E63027");
    reveal_strlit("#FF8C42");
    reveal_strlit("#FFC857");
    reveal_strlit("#4CAF50");
    reveal_strlit("#2EC4B6");
    reveal_strlit("#4361EE");
    reveal_strlit("#9B5DE5");
    reveal_strlit("#F15BB5");
    crate::text::lemma_trim_no_space(spec_palette()[i].1);
}

} // verus!

verus! {

/// However the colour is configured, at most one swatch of the palette is
/// shown as selected.
pub proof fn lemma_at_most_one_selected(
    configured: Option<Seq<char>>,
    theme_default: Seq<char>,
    i: int,
    j: int,
)
    requires
        0 <= i < spec_palette().len(),
        0 <= j < spec_palette().len(),
        spec_is_selected(configured, theme_default, spec_palette()[i].1),
        spec_is_selected(configured, theme_default, spec_palette()[j].1),
    ensures
        i == j,
{
    let c = match configured {
        Some(c) => c,
        None => theme_default,
    };
    let a = spec_palette()[i].1;
    let b = spec_palette()[j].1;
    assert(eq_ignore_ascii_case(a, b)) by {
        assert forall|k: int| 0 <= k < a.len() implies crate::text::ascii_lower(a[k])
            == crate::text::ascii_lower(b[k]) by {
            assert(crate::text::ascii_lower(c[k]) == crate::text::ascii_lower(a[k]));
            assert(crate::text::ascii_lower(c[k]) == crate::text::ascii_lower(b[k]));
        }
    }
    lemma_palette_hex_distinct(i, j);
}

} // verus!

verus! {

/// Choosing a layout in the menu sets exactly that layout and changes
/// nothing else; showing or hiding a metric sets exactly its flag, and
/// picking a colour sets exactly its colour.
pub proof fn lemma_menu_action_sets_what_was_asked(
    config: Config,
    action: MenuAction,
    other: MetricKind,
)
    ensures
        match action {
            MenuAction::SetOrientation(o) => {
                let c = spec_apply_menu_action(config, action);
                &&& c.widget.orientation == o
                &&& c.widget.size == config.widget.size
                &&& c.widget.opacity == config.widget.opacity
                &&& c.widget.always_on_top == config.widget.always_on_top
                &&& c.widget.show_label == config.widget.show_label
                &&& c.theme == config.theme
                &&& c.cpu == config.cpu && c.ram == config.ram && c.disk == config.disk
                    && c.gpu == config.gpu && c.network == config.network
            },
            MenuAction::SetShown(kind, shown) => {
                let c = spec_apply_menu_action(config, action);
                &&& c.spec_metric(kind).enabled == shown
                &&& c.spec_metric(kind).color == config.spec_metric(kind).color
                &&& c.spec_metric(kind).position == config.spec_metric(kind).position
                &&& other != kind ==> c.spec_metric(other) == config.spec_metric(other)
                &&& c.widget == config.widget && c.theme == config.theme
                    && c.network == config.network
            },
            MenuAction::SetColor(kind, hex) => {
                let c = spec_apply_menu_action(config, action);
                &&& c.spec_metric(kind).color == Some(hex)
                &&& c.spec_metric(kind).enabled == config.spec_metric(kind).enabled
                &&& c.spec_metric(kind).position == config.spec_metric(kind).position
                &&& other != kind ==> c.spec_metric(other) == config.spec_metric(other)
                &&& c.widget == config.widget && c.theme == config.theme
                    && c.network == config.network
            },
        },
{
}

/// The swatch checked in a metric's palette is the colour its arc is
/// painted in: the configured palette colour when there is one, else the
/// theme's default colour, whatever palette colour that is; no other swatch
/// is checked.
pub proof fn lemma_palette_labels_check_active(
    configured: Option<Seq<char>>,
    theme_default: Seq<char>,
    p: int,
)
    requires
        0 <= p < spec_palette().len(),
        match configured {
            Some(c) => c == spec_palette()[p].1,
            None => theme_default == spec_palette()[p].1,
        },
    ensures
        forall|i: int|
            0 <= i < spec_palette().len() ==> #[trigger] spec_palette_labels(
                configured,
                theme_default,
            )[i] == spec_pad(
                if i == p {
                    "\u{2713} "@ + spec_palette()[i].0
                } else {
                    spec_palette()[i].0
                },
            ),
{
    let active = spec_palette()[p].1;
    assert forall|i: int| 0 <= i < spec_palette().len() implies #[trigger] spec_palette_labels(
        configured,
        theme_default,
    )[i] == spec_pad(
        if i == p {
            "\u{2713} "@ + spec_palette()[i].0
        } else {
            spec_palette()[i].0
        },
    ) by {
        lemma_is_selected_symmetric(active, theme_default, active);
        if eq_ignore_ascii_case(active, spec_palette()[i].1) {
            lemma_palette_hex_distinct(p, i);
        }
    }
}

} // verus!

verus! {

/// Each palette colour is named by its own entry; a text that is no
/// palette colour, as written there, is named "?".
pub proof fn lemma_palette_name(p: int, hex: Seq<char>)
    ensures
        0 <= p < spec_palette().len() ==> spec_palette_name(spec_palette()[p].1)
            == spec_palette()[p].0,
        (forall|i: int| 0 <= i < spec_palette().len() ==> spec_palette()[i].1 != hex)
            ==> spec_palette_name(hex) == "?"@,
{
    if 0 <= p < spec_palette().len() {
        lemma_first_with_hex(p, 0);
    }
    if forall|i: int| 0 <= i < spec_palette().len() ==> spec_palette()[i].1 != hex {
        lemma_first_with_hex_absent(hex, 0);
    }
}

proof fn lemma_first_with_hex_absent(hex: Seq<char>, from: int)
    requires
        0 <= from <= spec_palette().len(),
        forall|i: int| 0 <= i < spec_palette().len() ==> spec_palette()[i].1 != hex,
    ensures
        spec_first_with_hex(hex, from) == spec_palette().len(),
    decreases spec_palette().len() - from,
{
    if from < spec_palette().len() {
        lemma_first_with_hex_absent(hex, from + 1);
    }
}

} // verus!
