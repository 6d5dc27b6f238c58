//! Configuration model of halo and hex colour parsing.
//!
//! Floating-point settings (sizes, opacity, ring width, window positions) are
//! carried as their IEEE-754 bit patterns (`F32Bits`): this crate stores and
//! moves them unchanged but never computes with them.

use vstd::prelude::*;

use eframe::egui;

use crate::text::{
    all_whitespace, ascii_lower, chars_of, eq_ignore_ascii_case, lemma_trim_ignore_case,
    lemma_trim_no_space, lemma_trim_surrounding_whitespace, spec_trim, trim_bounds,
};

verus! {

/// Default colour of the progress arc (red).
pub const DEFAULT_PROGRESS_COLOR: &'static str = "#E63027";

/// Default colour of the widget background.
pub const DEFAULT_BACKGROUND_COLOR: &'static str = "#202020";

/// Default colour of the text.
pub const DEFAULT_TEXT_COLOR: &'static str = "#FFFFFF";

/// Default colour of the ring behind the progress arc.
pub const DEFAULT_RING_BACKGROUND_COLOR: &'static str = "#3A3A3A";

/// The IEEE-754 bit pattern of an `f32` setting, kept exactly as read.
#[derive(Debug, Clone, Copy, PartialEq, Eq, Structural)]
pub struct F32Bits(pub u32);

/// Typed identifier of each supported metric.
#[derive(Debug, Clone, Copy, PartialEq, Eq, Hash, Structural)]
pub enum MetricKind {
    Cpu,
    Ram,
    Disk,
    Gpu,
}

impl MetricKind {
    /// The stable identifier of a metric.
    pub open spec fn spec_id(self) -> Seq<char> {
        match self {
            MetricKind::Cpu => "cpu"@,
            MetricKind::Ram => "ram"@,
            MetricKind::Disk => "disk"@,
            MetricKind::Gpu => "gpu"@,
        }
    }

    /// Stable identifier used as window id.
    pub fn id(self) -> (r: &'static str)
        ensures
            r@ == self.spec_id(),
    {
        match self {
            MetricKind::Cpu => "cpu",
            MetricKind::Ram => "ram",
            MetricKind::Disk => "disk",
            MetricKind::Gpu => "gpu",
        }
    }
}

/// All metrics, in the fixed order in which widgets are listed.
pub open spec fn all_kinds() -> Seq<MetricKind> {
    seq![MetricKind::Cpu, MetricKind::Ram, MetricKind::Disk, MetricKind::Gpu]
}

/// Layout of the widget group: a row or a column.
#[derive(Debug, Clone, Copy, PartialEq, Eq, Structural)]
pub enum Orientation {
    Horizontal,
    Vertical,
}

impl Default for Orientation {
    fn default() -> (r: Self)
        ensures
            r == Orientation::Horizontal,
    {
        Orientation::Horizontal
    }
}

/// Whether a metric is shown, where its window is and the colour of its arc.
#[derive(Debug)]
pub struct MetricConfig {
    pub enabled: bool,
    /// Screen position of the window, `[x, y]`.
    pub position: Option<[F32Bits; 2]>,
    /// Colour of the progress arc, "#RRGGBB"; `None` uses the theme's.
    pub color: Option<String>,
}

impl Default for MetricConfig {
    fn default() -> (r: Self)
        ensures
            !r.enabled,
            r.position.is_none(),
            r.color.is_none(),
    {
        MetricConfig { enabled: false, position: None, color: None }
    }
}

/// Appearance: colours as text and the width of the ring.
#[derive(Debug)]
pub struct ThemeConfig {
    pub progress_color: String,
    pub background_color: String,
    pub text_color: String,
    pub ring_background_color: String,
    pub ring_width: F32Bits,
}

impl ThemeConfig {
    pub open spec fn is_default(self) -> bool {
        &&& self.progress_color@ == DEFAULT_PROGRESS_COLOR@
        &&& self.background_color@ == DEFAULT_BACKGROUND_COLOR@
        &&& self.text_color@ == DEFAULT_TEXT_COLOR@
        &&& self.ring_background_color@ == DEFAULT_RING_BACKGROUND_COLOR@
        &&& self.ring_width == F32Bits(0x4066_6666)  // 3.6

    }
}

impl Default for ThemeConfig {
    fn default() -> (r: Self)
        ensures
            r.is_default(),
    {
        ThemeConfig {
            progress_color: DEFAULT_PROGRESS_COLOR.to_owned(),
            background_color: DEFAULT_BACKGROUND_COLOR.to_owned(),
            text_color: DEFAULT_TEXT_COLOR.to_owned(),
            ring_background_color: DEFAULT_RING_BACKGROUND_COLOR.to_owned(),
            ring_width: F32Bits(0x4066_6666),
        }
    }
}

/// Colours of a theme, parsed and ready to paint.
#[derive(Debug, Clone, Copy, PartialEq, Eq, Structural)]
pub struct Theme {
    pub progress: Color32,
    pub background: Color32,
    pub text: Color32,
    pub ring_background: Color32,
}

/// The colour `text` names, or else the colour `default` names.
pub open spec fn spec_color_or(text: Seq<char>, default: Seq<char>) -> Color32 {
    match spec_parse_hex_color(text) {
        Some(c) => c,
        None => spec_parse_hex_color(default).unwrap(),
    }
}

impl ThemeConfig {
    pub open spec fn spec_resolve(self) -> Theme {
        Theme {
            progress: spec_color_or(self.progress_color@, DEFAULT_PROGRESS_COLOR@),
            background: spec_color_or(self.background_color@, DEFAULT_BACKGROUND_COLOR@),
            text: spec_color_or(self.text_color@, DEFAULT_TEXT_COLOR@),
            ring_background: spec_color_or(
                self.ring_background_color@,
                DEFAULT_RING_BACKGROUND_COLOR@,
            ),
        }
    }

    /// Parses the colours; a colour that is not valid is replaced by its
    /// default.
    pub fn resolve(&self) -> (r: Theme)
        ensures
            r == self.spec_resolve(),
    {
        Theme {
            progress: color_or(&self.progress_color, DEFAULT_PROGRESS_COLOR),
            background: color_or(&self.background_color, DEFAULT_BACKGROUND_COLOR),
            text: color_or(&self.text_color, DEFAULT_TEXT_COLOR),
            ring_background: color_or(
                &self.ring_background_color,
                DEFAULT_RING_BACKGROUND_COLOR,
            ),
        }
    }
}

/// The four default colours are valid.
pub proof fn lemma_default_colors_parse()
    ensures
        spec_parse_hex_color(DEFAULT_PROGRESS_COLOR@) == Some(
            Color32 { r: 0xE6, g: 0x30, b: 0x27, a: 255 },
        ),
        spec_parse_hex_color(DEFAULT_BACKGROUND_COLOR@) == Some(
            Color32 { r: 0x20, g: 0x20, b: 0x20, a: 255 },
        ),
        spec_parse_hex_color(DEFAULT_TEXT_COLOR@) == Some(
            Color32 { r: 0xFF, g: 0xFF, b: 0xFF, a: 255 },
        ),
        spec_parse_hex_color(DEFAULT_RING_BACKGROUND_COLOR@) == Some(
            Color32 { r: 0x3A, g: 0x3A, b: 0x3A, a: 255 },
        ),
{
    reveal_strlit("#E63027");
    reveal_strlit("#202020");
    reveal_strlit("#FFFFFF");
    reveal_strlit("#3A3A3A");
    lemma_trim_no_space(DEFAULT_PROGRESS_COLOR@);
    lemma_trim_no_space(DEFAULT_BACKGROUND_COLOR@);
    lemma_trim_no_space(DEFAULT_TEXT_COLOR@);
    lemma_trim_no_space(DEFAULT_RING_BACKGROUND_COLOR@);
}

fn color_or(text: &String, default: &'static str) -> (r: Color32)
    requires
        default@ == DEFAULT_PROGRESS_COLOR@ || default@ == DEFAULT_BACKGROUND_COLOR@ || default@
            == DEFAULT_TEXT_COLOR@ || default@ == DEFAULT_RING_BACKGROUND_COLOR@,
    ensures
        r == spec_color_or(text@, default@),
{
    match parse_hex_color(text.as_str()) {
        Some(c) => c,
        None => {
            let d = parse_hex_color(default);
            proof {
                lemma_default_colors_parse();
            }
            d.unwrap()
        },
    }
}

/// Settings shared by all widgets.
#[derive(Debug, Clone, Copy)]
pub struct WidgetConfig {
    pub size: F32Bits,
    pub opacity: F32Bits,
    pub always_on_top: bool,
    pub show_label: bool,
    /// The widgets always move together, in a row or in a column.
    pub orientation: Orientation,
}

impl Default for WidgetConfig {
    fn default() -> (r: Self)
        ensures
            r.size == F32Bits(0x4267_d70a),  // 57.96
            r.opacity == F32Bits(0x3f66_6666),  // 0.9
            r.always_on_top,
            r.show_label,
            r.orientation == Orientation::Horizontal,
    {
        WidgetConfig {
            size: F32Bits(0x4267_d70a),
            opacity: F32Bits(0x3f66_6666),
            always_on_top: true,
            show_label: true,
            orientation: Orientation::Horizontal,
        }
    }
}

/// Root of `config.toml`.
#[derive(Debug)]
pub struct Config {
    pub theme: ThemeConfig,
    pub widget: WidgetConfig,
    pub cpu: MetricConfig,
    pub ram: MetricConfig,
    pub gpu: MetricConfig,
    pub disk: MetricConfig,
    pub network: MetricConfig,
}

impl Default for Config {
    fn default() -> (r: Self)
        ensures
            r.theme.is_default(),
            r.widget.orientation == Orientation::Horizontal,
            r.widget.always_on_top,
            r.widget.show_label,
            r.widget.size == F32Bits(0x4267_d70a),
            r.widget.opacity == F32Bits(0x3f66_6666),
            forall|k: MetricKind| #![trigger r.spec_metric(k)]
                r.spec_metric(k).enabled && r.spec_metric(k).position.is_none()
                    && r.spec_metric(k).color.is_none(),
            !r.network.enabled,
            r.network.position.is_none(),
            r.network.color.is_none(),
    {
        Config {
            theme: ThemeConfig::default(),
            widget: WidgetConfig::default(),
            cpu: MetricConfig { enabled: true, position: None, color: None },
            ram: MetricConfig { enabled: true, position: None, color: None },
            gpu: MetricConfig { enabled: true, position: None, color: None },
            disk: MetricConfig { enabled: true, position: None, color: None },
            network: MetricConfig::default(),
        }
    }
}

/// `kind` alone when `shown`, else nothing.
spec fn listed_if(shown: bool, kind: MetricKind) -> Seq<MetricKind> {
    if shown {
        seq![kind]
    } else {
        Seq::empty()
    }
}

/// The enabled metrics, written out metric by metric in the fixed order.
proof fn lemma_enabled_kinds_listed(config: Config)
    ensures
        config.spec_enabled_kinds() == listed_if(config.cpu.enabled, MetricKind::Cpu) + listed_if(
            config.ram.enabled,
            MetricKind::Ram,
        ) + listed_if(config.disk.enabled, MetricKind::Disk) + listed_if(
            config.gpu.enabled,
            MetricKind::Gpu,
        ),
{
    let p = |k: MetricKind| config.spec_metric(k).enabled;
    let s = all_kinds();
    reveal_with_fuel(Seq::filter, 5);
    assert(s.drop_last() =~= seq![MetricKind::Cpu, MetricKind::Ram, MetricKind::Disk]);
    assert(s.drop_last().drop_last() =~= seq![MetricKind::Cpu, MetricKind::Ram]);
    assert(s.drop_last().drop_last().drop_last() =~= seq![MetricKind::Cpu]);
    assert(s.drop_last().drop_last().drop_last().drop_last() =~= Seq::<MetricKind>::empty());
    assert(s.filter(p) =~= listed_if(config.cpu.enabled, MetricKind::Cpu) + listed_if(
        config.ram.enabled,
        MetricKind::Ram,
    ) + listed_if(config.disk.enabled, MetricKind::Disk) + listed_if(
        config.gpu.enabled,
        MetricKind::Gpu,
    ));
}

/// The enabled metrics are listed once each: exactly those whose settings
/// enable them.
pub proof fn lemma_enabled_kinds(config: Config)
    ensures
        config.spec_enabled_kinds().no_duplicates(),
        forall|k: MetricKind|
            #[trigger] config.spec_enabled_kinds().contains(k) <==> config.spec_metric(k).enabled,
{
    lemma_enabled_kinds_listed(config);
    let e = config.spec_enabled_kinds();
    assert forall|k: MetricKind| #[trigger] e.contains(k) <==> config.spec_metric(k).enabled by {
        if config.spec_metric(k).enabled {
            match k {
                MetricKind::Cpu => assert(e[0] == k),
                MetricKind::Ram => assert(e[if config.cpu.enabled { 1int } else { 0 }] == k),
                MetricKind::Disk => assert(e[(if config.cpu.enabled { 1int } else { 0 }) + (if config.ram.enabled { 1int } else { 0 })] == k),
                MetricKind::Gpu => assert(e[e.len() - 1] == k),
            }
        }
    }
}

impl Config {
    /// The settings of one metric.
    pub open spec fn spec_metric(self, kind: MetricKind) -> MetricConfig {
        match kind {
            MetricKind::Cpu => self.cpu,
            MetricKind::Ram => self.ram,
            MetricKind::Disk => self.disk,
            MetricKind::Gpu => self.gpu,
        }
    }

    /// This configuration with the settings of `kind` replaced by `m`.
    pub open spec fn spec_with_metric(self, kind: MetricKind, m: MetricConfig) -> Config {
        match kind {
            MetricKind::Cpu => Config { cpu: m, ..self },
            MetricKind::Ram => Config { ram: m, ..self },
            MetricKind::Disk => Config { disk: m, ..self },
            MetricKind::Gpu => Config { gpu: m, ..self },
        }
    }

    /// The enabled metrics, in the fixed order.
    pub open spec fn spec_enabled_kinds(self) -> Seq<MetricKind> {
        all_kinds().filter(|k: MetricKind| self.spec_metric(k).enabled)
    }

    /// The colour of the arc of `kind`: its own if it names a valid colour,
    /// else the theme's progress colour.
    pub open spec fn spec_metric_color(self, kind: MetricKind) -> Color32 {
        match self.spec_metric(kind).color {
            Some(c) => match spec_parse_hex_color(c@) {
                Some(col) => col,
                None => self.theme.spec_resolve().progress,
            },
            None => self.theme.spec_resolve().progress,
        }
    }

    /// Settings of one metric.
    pub fn metric(&self, kind: MetricKind) -> (r: &MetricConfig)
        ensures
            *r == self.spec_metric(kind),
    {
        match kind {
            MetricKind::Cpu => &self.cpu,
            MetricKind::Ram => &self.ram,
            MetricKind::Disk => &self.disk,
            MetricKind::Gpu => &self.gpu,
        }
    }

    /// Mutable settings of one metric.
    pub fn metric_mut(&mut self, kind: MetricKind) -> (r: &mut MetricConfig)
        ensures
            *r == old(self).spec_metric(kind),
            *final(self) == old(self).spec_with_metric(kind, *final(r)),
    {
        match kind {
            MetricKind::Cpu => &mut self.cpu,
            MetricKind::Ram => &mut self.ram,
            MetricKind::Disk => &mut self.disk,
            MetricKind::Gpu => &mut self.gpu,
        }
    }

    /// Enabled metrics, in the fixed order.
    pub fn enabled_kinds(&self) -> (r: Vec<MetricKind>)
        ensures
            r@ == self.spec_enabled_kinds(),
    {
        let mut v: Vec<MetricKind> = Vec::new();
        if self.cpu.enabled {
            v.push(MetricKind::Cpu);
        }
        if self.ram.enabled {
            v.push(MetricKind::Ram);
        }
        if self.disk.enabled {
            v.push(MetricKind::Disk);
        }
        if self.gpu.enabled {
            v.push(MetricKind::Gpu);
        }
        proof {
            lemma_enabled_kinds_listed(*self);
            assert(v@ =~= self.spec_enabled_kinds());
        }
        v
    }

    /// Colour of the arc of `kind`: its own if it has a valid one, else the
    /// theme's progress colour.
    pub fn metric_color(&self, kind: MetricKind) -> (r: Color32)
        ensures
            r == self.spec_metric_color(kind),
    {
        match &self.metric(kind).color {
            Some(c) => match parse_hex_color(c.as_str()) {
                Some(col) => col,
                None => self.theme.resolve().progress,
            },
            None => self.theme.resolve().progress,
        }
    }
}

/// A colour ready to paint: sRGBA with premultiplied alpha, one byte per
/// channel (the same four bytes egui keeps in its `Color32`).
#[derive(Debug, Clone, Copy, PartialEq, Eq, Structural)]
pub struct Color32 {
    pub r: u8,
    pub g: u8,
    pub b: u8,
    pub a: u8,
}

/// `val * frac / 255`, rounded, in the fixed-point form egui uses.
pub open spec fn mul_frac_round(val: u8, frac: u8) -> u8 {
    let p = val * frac + 128;
    ((p + p / 256) / 256) as u8
}

/// The premultiplied colour egui builds from separate-alpha channels.
pub open spec fn premultiplied(r: u8, g: u8, b: u8, a: u8) -> Color32 {
    if a == 0 {
        Color32 { r: 0, g: 0, b: 0, a: 0 }
    } else if a == 255 {
        Color32 { r, g, b, a: 255 }
    } else {
        Color32 { r: mul_frac_round(r, a), g: mul_frac_round(g, a), b: mul_frac_round(b, a), a }
    }
}

/// Calls egui's `Color32::from_rgb`, whose source builds the bytes
/// `[r, g, b, 255]`; the contract claims exactly that.
#[verifier::external_body]
fn color_from_rgb(r: u8, g: u8, b: u8) -> (c: Color32)
    ensures
        c == (Color32 { r, g, b, a: 255 }),
{
    let c = egui::Color32::from_rgb(r, g, b);
    Color32 { r: c.r(), g: c.g(), b: c.b(), a: c.a() }
}

/// Calls egui's `Color32::from_rgba_unmultiplied`. Its source maps alpha 0 to
/// transparent black, alpha 255 to `from_rgb`, and otherwise multiplies each
/// channel by `a / 255` with its integer `mul_frac_round`; the contract
/// claims exactly that (`premultiplied`).
#[verifier::external_body]
fn color_from_rgba_unmultiplied(r: u8, g: u8, b: u8, a: u8) -> (c: Color32)
    ensures
        c == premultiplied(r, g, b, a),
{
    let c = egui::Color32::from_rgba_unmultiplied(r, g, b, a);
    Color32 { r: c.r(), g: c.g(), b: c.b(), a: c.a() }
}

/// Value of a hexadecimal digit (either case), as `char::to_digit(16)`.
pub open spec fn spec_hex_digit(c: char) -> Option<u8> {
    let u = c as u32;
    if 48 <= u <= 57 {
        Some((u - 48) as u8)
    } else if 97 <= u <= 102 {
        Some((u - 87) as u8)
    } else if 65 <= u <= 70 {
        Some((u - 55) as u8)
    } else {
        None
    }
}

/// One colour channel, written as two hex digits.
pub open spec fn spec_channel(c0: char, c1: char) -> Option<u8> {
    match (spec_hex_digit(c0), spec_hex_digit(c1)) {
        (Some(hi), Some(lo)) => Some((hi * 16 + lo) as u8),
        _ => None,
    }
}

/// The colour written by the digits after `#`: `RRGGBB` (opaque) or
/// `RRGGBBAA` (separate alpha); any other length gives nothing.
pub open spec fn spec_parse_hex_digits(h: Seq<char>) -> Option<Color32> {
    if h.len() == 6 {
        match (spec_channel(h[0], h[1]), spec_channel(h[2], h[3]), spec_channel(h[4], h[5])) {
            (Some(r), Some(g), Some(b)) => Some(Color32 { r, g, b, a: 255 }),
            _ => None,
        }
    } else if h.len() == 8 {
        match (
            spec_channel(h[0], h[1]),
            spec_channel(h[2], h[3]),
            spec_channel(h[4], h[5]),
            spec_channel(h[6], h[7]),
        ) {
            (Some(r), Some(g), Some(b), Some(a)) => Some(premultiplied(r, g, b, a)),
            _ => None,
        }
    } else {
        None
    }
}

/// A colour written "#RRGGBB" or "#RRGGBBAA", surrounded by any whitespace.
pub open spec fn spec_parse_hex_color(text: Seq<char>) -> Option<Color32> {
    let t = spec_trim(text);
    if t.len() > 0 && t[0] == '#' {
        spec_parse_hex_digits(t.drop_first())
    } else {
        None
    }
}

proof fn lemma_hex_digit_ignore_case(c: char, d: char)
    requires
        ascii_lower(c) == ascii_lower(d),
    ensures
        spec_hex_digit(c) == spec_hex_digit(d),
        (c == '#') == (d == '#'),
{
}

/// Surrounding whitespace does not change the colour a text names.
pub proof fn lemma_parse_ignores_surrounding_whitespace(w1: Seq<char>, s: Seq<char>, w2: Seq<char>)
    requires
        all_whitespace(w1),
        all_whitespace(w2),
    ensures
        spec_parse_hex_color(w1 + s + w2) == spec_parse_hex_color(s),
{
    lemma_trim_surrounding_whitespace(w1, s, w2);
}

/// Hex digits name the same colour in upper and in lower case.
pub proof fn lemma_parse_ignores_ascii_case(s: Seq<char>, t: Seq<char>)
    requires
        eq_ignore_ascii_case(s, t),
    ensures
        spec_parse_hex_color(s) == spec_parse_hex_color(t),
{
    lemma_trim_ignore_case(s, t);
    let a = spec_trim(s);
    let b = spec_trim(t);
    if a.len() > 0 {
        lemma_hex_digit_ignore_case(a[0], b[0]);
        if a[0] == '#' {
            let h = a.drop_first();
            let g = b.drop_first();
            assert forall|i: int| 0 <= i < h.len() implies spec_hex_digit(h[i]) == spec_hex_digit(
                g[i],
            ) by {
                assert(ascii_lower(a[i + 1]) == ascii_lower(b[i + 1]));
                lemma_hex_digit_ignore_case(h[i], g[i]);
            }
            if h.len() == 6 || h.len() == 8 {
                assert(spec_channel(h[0], h[1]) == spec_channel(g[0], g[1]));
                assert(spec_channel(h[2], h[3]) == spec_channel(g[2], g[3]));
                assert(spec_channel(h[4], h[5]) == spec_channel(g[4], g[5]));
                if h.len() == 8 {
                    assert(spec_channel(h[6], h[7]) == spec_channel(g[6], g[7]));
                }
            }
        }
    }
}

/// An alpha of "FF" names the same colour as no alpha at all.
pub proof fn lemma_parse_opaque_alpha(h: Seq<char>)
    requires
        h.len() == 6,
    ensures
        spec_parse_hex_digits(h + seq!['F', 'F']) == spec_parse_hex_digits(h),
        spec_parse_hex_digits(h + seq!['f', 'f']) == spec_parse_hex_digits(h),
{
    let a = h + seq!['F', 'F'];
    let b = h + seq!['f', 'f'];
    assert(a[6] == 'F' && a[7] == 'F' && b[6] == 'f' && b[7] == 'f');
    assert forall|i: int| 0 <= i < 6 implies a[i] == h[i] && b[i] == h[i] by {}
}

fn hex_digit(c: char) -> (r: Option<u8>)
    ensures
        r == spec_hex_digit(c),
{
    let u = c as u32;
    if 48 <= u && u <= 57 {
        Some((u - 48) as u8)
    } else if 97 <= u && u <= 102 {
        Some((u - 87) as u8)
    } else if 65 <= u && u <= 70 {
        Some((u - 55) as u8)
    } else {
        None
    }
}

fn channel(c0: char, c1: char) -> (r: Option<u8>)
    ensures
        r == spec_channel(c0, c1),
{
    match (hex_digit(c0), hex_digit(c1)) {
        (Some(hi), Some(lo)) => Some(hi * 16 + lo),
        _ => None,
    }
}

/// Parses a colour written "#RRGGBB" or "#RRGGBBAA" (hex digits of either
/// case, whitespace around it ignored).
pub fn parse_hex_color(text: &str) -> (r: Option<Color32>)
    ensures
        r == spec_parse_hex_color(text@),
{
    let cs = chars_of(text);
    let (start, end) = trim_bounds(&cs);
    let ghost t = cs@.subrange(start as int, end as int);
    assert(t == spec_trim(text@));
    if start == end || cs[start] != '#' {
        return None;
    }
    let ghost h = t.drop_first();
    let base = start + 1;
    let len = end - base;
    assert(h.len() == len);
    assert forall|i: int| 0 <= i < len implies h[i] == cs@[base + i] by {}
    if len == 6 {
        let r = channel(cs[base], cs[base + 1]);
        let g = channel(cs[base + 2], cs[base + 3]);
        let b = channel(cs[base + 4], cs[base + 5]);
        match (r, g, b) {
            (Some(r), Some(g), Some(b)) => Some(color_from_rgb(r, g, b)),
            _ => None,
        }
    } else if len == 8 {
        let r = channel(cs[base], cs[base + 1]);
        let g = channel(cs[base + 2], cs[base + 3]);
        let b = channel(cs[base + 4], cs[base + 5]);
        let a = channel(cs[base + 6], cs[base + 7]);
        match (r, g, b, a) {
            (Some(r), Some(g), Some(b), Some(a)) => Some(color_from_rgba_unmultiplied(r, g, b, a)),
            _ => None,
        }
    } else {
        None
    }
}

} // verus!

verus! {

/// Reading back a metric's settings after writing them through `metric_mut`
/// gives what was written; the other metrics and the rest are unchanged.
pub proof fn lemma_metric_read_after_write(config: Config, kind: MetricKind, m: MetricConfig, other: MetricKind)
    ensures
        config.spec_with_metric(kind, m).spec_metric(kind) == m,
        other != kind ==> config.spec_with_metric(kind, m).spec_metric(other) == config.spec_metric(
            other,
        ),
        config.spec_with_metric(kind, m).theme == config.theme,
        config.spec_with_metric(kind, m).widget == config.widget,
        config.spec_with_metric(kind, m).network == config.network,
{
}

/// The default theme resolves to its four default colours.
pub proof fn lemma_default_theme_resolves(theme: ThemeConfig)
    requires
        theme.is_default(),
    ensures
        theme.spec_resolve() == (Theme {
            progress: Color32 { r: 0xE6, g: 0x30, b: 0x27, a: 255 },
            background: Color32 { r: 0x20, g: 0x20, b: 0x20, a: 255 },
            text: Color32 { r: 0xFF, g: 0xFF, b: 0xFF, a: 255 },
            ring_background: Color32 { r: 0x3A, g: 0x3A, b: 0x3A, a: 255 },
        }),
{
    lemma_default_colors_parse();
}

/// A metric without a colour of its own, or with one that is not valid,
/// gets the theme's progress colour; one with a valid colour gets that.
pub proof fn lemma_metric_color_fallback(config: Config, kind: MetricKind)
    ensures
        (match config.spec_metric(kind).color {
            Some(c) => spec_parse_hex_color(c@).is_none(),
            None => true,
        }) ==> config.spec_metric_color(kind) == config.theme.spec_resolve().progress,
        (match config.spec_metric(kind).color {
            Some(c) => spec_parse_hex_color(c@) is Some ==> spec_parse_hex_color(c@) == Some(
                config.spec_metric_color(kind),
            ),
            None => true,
        }),
{
}

/// Resolving keeps each configured theme colour that is valid.
pub proof fn lemma_resolve_keeps_valid_colors(theme: ThemeConfig)
    ensures
        spec_parse_hex_color(theme.progress_color@) is Some ==> Some(theme.spec_resolve().progress)
            == spec_parse_hex_color(theme.progress_color@),
        spec_parse_hex_color(theme.background_color@) is Some ==> Some(
            theme.spec_resolve().background,
        ) == spec_parse_hex_color(theme.background_color@),
        spec_parse_hex_color(theme.text_color@) is Some ==> Some(theme.spec_resolve().text)
            == spec_parse_hex_color(theme.text_color@),
        spec_parse_hex_color(theme.ring_background_color@) is Some ==> Some(
            theme.spec_resolve().ring_background,
        ) == spec_parse_hex_color(theme.ring_background_color@),
{
}

} // verus!

verus! {

/// The upper-case hex digit of a value below 16.
pub open spec fn spec_hex_digit_char(v: u8) -> char {
    if v < 10 {
        (48 + v) as char
    } else {
        (55 + v) as char
    }
}

/// The text "#RRGGBB" of an opaque colour, in upper-case hex digits.
pub open spec fn spec_hex_color_text(r: u8, g: u8, b: u8) -> Seq<char> {
    seq![
        '#',
        spec_hex_digit_char(r / 16),
        spec_hex_digit_char(r % 16),
        spec_hex_digit_char(g / 16),
        spec_hex_digit_char(g % 16),
        spec_hex_digit_char(b / 16),
        spec_hex_digit_char(b % 16),
    ]
}

proof fn lemma_hex_digit_char(v: u8)
    requires
        v < 16,
    ensures
        spec_hex_digit(spec_hex_digit_char(v)) == Some(v),
        !crate::text::is_whitespace(spec_hex_digit_char(v)),
{
}

proof fn lemma_channel_of_byte(v: u8)
    ensures
        spec_channel(spec_hex_digit_char(v / 16), spec_hex_digit_char(v % 16)) == Some(v),
{
    lemma_hex_digit_char(v / 16);
    lemma_hex_digit_char(v % 16);
}

/// Every opaque colour written "#RRGGBB" reads back as itself.
pub proof fn lemma_hex_round_trip(r: u8, g: u8, b: u8)
    ensures
        spec_parse_hex_color(spec_hex_color_text(r, g, b)) == Some(Color32 { r, g, b, a: 255 }),
{
    let t = spec_hex_color_text(r, g, b);
    lemma_hex_digit_char(b % 16);
    lemma_trim_no_space(t);
    lemma_channel_of_byte(r);
    lemma_channel_of_byte(g);
    lemma_channel_of_byte(b);
    let h = t.drop_first();
    assert(h[0] == spec_hex_digit_char(r / 16) && h[1] == spec_hex_digit_char(r % 16));
    assert(h[2] == spec_hex_digit_char(g / 16) && h[3] == spec_hex_digit_char(g % 16));
    assert(h[4] == spec_hex_digit_char(b / 16) && h[5] == spec_hex_digit_char(b % 16));
}

} // verus!

verus! {

/// Each theme colour that is not a valid colour falls back to its own
/// default: red progress (#E63027), dark background (#202020), white text
/// (#FFFFFF) and grey ring (#3A3A3A); a valid colour is kept.
pub proof fn lemma_resolve_falls_back_per_color(theme: ThemeConfig)
    ensures
        spec_parse_hex_color(theme.progress_color@) is None ==> theme.spec_resolve().progress == (
        Color32 { r: 0xE6, g: 0x30, b: 0x27, a: 255 }),
        spec_parse_hex_color(theme.background_color@) is None ==> theme.spec_resolve().background
            == (Color32 { r: 0x20, g: 0x20, b: 0x20, a: 255 }),
        spec_parse_hex_color(theme.text_color@) is None ==> theme.spec_resolve().text == (Color32 {
            r: 0xFF,
            g: 0xFF,
            b: 0xFF,
            a: 255,
        }),
        spec_parse_hex_color(theme.ring_background_color@) is None
            ==> theme.spec_resolve().ring_background == (Color32 {
            r: 0x3A,
            g: 0x3A,
            b: 0x3A,
            a: 255,
        }),
        spec_parse_hex_color(theme.progress_color@) matches Some(c) ==> theme.spec_resolve().progress
            == c,
        spec_parse_hex_color(theme.background_color@) matches Some(c)
            ==> theme.spec_resolve().background == c,
        spec_parse_hex_color(theme.text_color@) matches Some(c) ==> theme.spec_resolve().text == c,
        spec_parse_hex_color(theme.ring_background_color@) matches Some(c)
            ==> theme.spec_resolve().ring_background == c,
{
    lemma_default_colors_parse();
}

/// The arc of a metric without a valid colour of its own is painted in the
/// theme's progress colour, or red (#E63027) when that is not valid either.
pub proof fn lemma_metric_color_default_red(config: Config, kind: MetricKind)
    requires
        match config.spec_metric(kind).color {
            Some(c) => spec_parse_hex_color(c@) is None,
            None => true,
        },
    ensures
        spec_parse_hex_color(config.theme.progress_color@) matches Some(c)
            ==> config.spec_metric_color(kind) == c,
        spec_parse_hex_color(config.theme.progress_color@) is None ==> config.spec_metric_color(
            kind,
        ) == (Color32 { r: 0xE6, g: 0x30, b: 0x27, a: 255 }),
{
    lemma_default_colors_parse();
}

} // verus!

verus! {

/// Position of a metric in the fixed order Cpu, Ram, Disk, Gpu.
pub open spec fn kind_rank(k: MetricKind) -> int {
    match k {
        MetricKind::Cpu => 0,
        MetricKind::Ram => 1,
        MetricKind::Disk => 2,
        MetricKind::Gpu => 3,
    }
}

/// Metrics listed in strictly increasing rank.
pub open spec fn ranked(s: Seq<MetricKind>) -> bool {
    forall|i: int, j: int| 0 <= i < j < s.len() ==> kind_rank(#[trigger] s[i]) < kind_rank(
        #[trigger] s[j],
    )
}

proof fn lemma_ranked_append(s: Seq<MetricKind>, shown: bool, k: MetricKind)
    requires
        ranked(s),
        forall|i: int| 0 <= i < s.len() ==> kind_rank(#[trigger] s[i]) < kind_rank(k),
    ensures
        ranked(s + listed_if(shown, k)),
        forall|i: int|
            0 <= i < (s + listed_if(shown, k)).len() ==> kind_rank(
                #[trigger] (s + listed_if(shown, k))[i],
            ) <= kind_rank(k),
{
    let t = s + listed_if(shown, k);
    assert forall|i: int, j: int| 0 <= i < j < t.len() implies kind_rank(#[trigger] t[i])
        < kind_rank(#[trigger] t[j]) by {
        if j >= s.len() {
            assert(t[j] == k);
            assert(t[i] == s[i]);
        } else {
            assert(t[i] == s[i] && t[j] == s[j]);
        }
    }
    assert forall|i: int| 0 <= i < t.len() implies kind_rank(#[trigger] t[i]) <= kind_rank(k) by {
        if i >= s.len() {
            assert(t[i] == k);
        } else {
            assert(t[i] == s[i]);
        }
    }
}

/// The enabled metrics are listed in the fixed order Cpu, Ram, Disk, Gpu;
/// with all of them enabled, that is the whole list.
pub proof fn lemma_enabled_kinds_in_order(config: Config)
    ensures
        forall|i: int, j: int|
            0 <= i < j < config.spec_enabled_kinds().len() ==> kind_rank(
                #[trigger] config.spec_enabled_kinds()[i],
            ) < kind_rank(#[trigger] config.spec_enabled_kinds()[j]),
        config.cpu.enabled && config.ram.enabled && config.disk.enabled && config.gpu.enabled
            ==> config.spec_enabled_kinds() == seq![
            MetricKind::Cpu,
            MetricKind::Ram,
            MetricKind::Disk,
            MetricKind::Gpu,
        ],
{
    lemma_enabled_kinds_listed(config);
    let e0 = Seq::<MetricKind>::empty();
    let e1 = e0 + listed_if(config.cpu.enabled, MetricKind::Cpu);
    let e2 = e1 + listed_if(config.ram.enabled, MetricKind::Ram);
    let e3 = e2 + listed_if(config.disk.enabled, MetricKind::Disk);
    let e4 = e3 + listed_if(config.gpu.enabled, MetricKind::Gpu);
    lemma_ranked_append(e0, config.cpu.enabled, MetricKind::Cpu);
    lemma_ranked_append(e1, config.ram.enabled, MetricKind::Ram);
    lemma_ranked_append(e2, config.disk.enabled, MetricKind::Disk);
    lemma_ranked_append(e3, config.gpu.enabled, MetricKind::Gpu);
    assert(e1 =~= listed_if(config.cpu.enabled, MetricKind::Cpu));
    assert(e4 == config.spec_enabled_kinds());
    assert(config.cpu.enabled && config.ram.enabled && config.disk.enabled && config.gpu.enabled
        ==> config.spec_enabled_kinds() =~= seq![
        MetricKind::Cpu,
        MetricKind::Ram,
        MetricKind::Disk,
        MetricKind::Gpu,
    ]);
}

/// A colour parses only from a text whose trimmed form starts with '#' and
/// has 6 or 8 hex digits after it.
pub proof fn lemma_parse_needs_hash_and_digits(text: Seq<char>)
    ensures
        spec_parse_hex_color(text) is Some ==> {
            let t = spec_trim(text);
            &&& t.len() == 7 || t.len() == 9
            &&& t[0] == '#'
            &&& forall|i: int| 1 <= i < t.len() ==> spec_hex_digit(#[trigger] t[i]) is Some
        },
{
    let t = spec_trim(text);
    if spec_parse_hex_color(text) is Some {
        let h = t.drop_first();
        assert forall|i: int| 1 <= i < t.len() implies spec_hex_digit(#[trigger] t[i]) is Some by {
            assert(t[i] == h[i - 1]);
        }
    }
}

} // verus!
