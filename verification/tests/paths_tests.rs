use halo::paths::{autostart_desktop_path, config_path, desktop_entry, join_path};

#[test]
fn join_adds_one_separator() {
    assert_eq!(join_path("/home/ana", "x/y"), "/home/ana/x/y");
    assert_eq!(join_path("/home/ana/", "x/y"), "/home/ana/x/y");
    assert_eq!(join_path("", "x/y"), "x/y");
}

#[test]
fn config_path_prefers_xdg() {
    assert_eq!(
        config_path(Some("/xdg"), Some("/home/ana")),
        "/xdg/halo/config.toml"
    );
    assert_eq!(
        config_path(None, Some("/home/ana")),
        "/home/ana/.config/halo/config.toml"
    );
    assert_eq!(config_path(None, None), "config.toml");
    assert_eq!(config_path(Some(""), None), "halo/config.toml");
}

#[test]
fn autostart_path() {
    assert_eq!(
        autostart_desktop_path(Some("/tmp/x/.config"), Some("/home/ana")),
        "/tmp/x/.config/autostart/halo.desktop"
    );
    assert_eq!(
        autostart_desktop_path(None, Some("/home/ana")),
        "/home/ana/.config/autostart/halo.desktop"
    );
    assert_eq!(
        autostart_desktop_path(None, None),
        ".config/autostart/halo.desktop"
    );
}

#[test]
fn desktop_entry_contents() {
    let e = desktop_entry("/usr/local/bin/halo");
    assert!(e.contains("Exec="));
    assert!(e.contains("X-GNOME-Autostart-enabled=true"));
    assert_eq!(
        e,
        "[Desktop Entry]\nType=Application\nName=halo\nExec=/usr/local/bin/halo\nX-GNOME-Autostart-enabled=true\nNoDisplay=true\n"
    );
}
