# halo

Circular, borderless system-monitor widgets for Linux (CPU, RAM, disk, GPU),
with a tray menu to show or hide each metric, pick its colour, choose a row
or column layout and start at login.

The crate is split in two:

- `src/` is the verified library (Verus). It holds the configuration model
  (`config`), hex colour parsing, tray-menu labels (`tray`), file locations
  and the autostart entry (`paths`), the decisions of the widget app — which
  widgets exist, when to refresh, save and repaint (`app_state`) — the text
  and integer handling of metric readings (`metrics`) and the logo handling
  (`icon`). Floating-point settings are carried as their bit patterns.
- `app/` is the program around it: eframe/egui windows and painting, the
  animation and the geometry of the widget group (floating point), sysinfo
  readings, the GTK tray thread, file and environment access, and the TOML
  (serde) form of the configuration.
