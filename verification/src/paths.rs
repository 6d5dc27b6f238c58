//! File locations (configuration file, XDG autostart entry) and the
//! contents of the autostart entry.

use vstd::prelude::*;

use crate::text::opt_chars;

verus! {

/// `rel` appended to `base` as `PathBuf::push` appends a relative path on
/// Unix: a separator is added unless `base` is empty or already ends in '/'.
pub open spec fn spec_join(base: Seq<char>, rel: Seq<char>) -> Seq<char> {
    if base.len() == 0 || base.last() == '/' {
        base + rel
    } else {
        base + seq!['/'] + rel
    }
}

/// Appends the relative path `rel` to `base`.
pub fn join_path(base: &str, rel: &str) -> (r: String)
    ensures
        r@ == spec_join(base@, rel@),
{
    let n = base.unicode_len();
    let mut s = base.to_owned();
    if n > 0 && base.get_char(n - 1) != '/' {
        proof {
            reveal_strlit("/");
        }
        s.append("/");
    }
    s.append(rel);
    s
}

/// Location of `config.toml`: under `$XDG_CONFIG_HOME/halo`, else under
/// `~/.config/halo`, else in the working directory.
pub open spec fn spec_config_path(xdg_config_home: Option<Seq<char>>, home: Option<Seq<char>>) -> Seq<
    char,
> {
    match xdg_config_home {
        Some(x) => spec_join(x, "halo/config.toml"@),
        None => match home {
            Some(h) => spec_join(h, ".config/halo/config.toml"@),
            None => "config.toml"@,
        },
    }
}

/// Location of `config.toml`, given the values of `XDG_CONFIG_HOME` and
/// `HOME` (`None` when a variable is unset or not Unicode).
pub fn config_path(xdg_config_home: Option<&str>, home: Option<&str>) -> (r: String)
    ensures
        r@ == spec_config_path(opt_chars(xdg_config_home), opt_chars(home)),
{
    match xdg_config_home {
        Some(x) => join_path(x, "halo/config.toml"),
        None => match home {
            Some(h) => join_path(h, ".config/halo/config.toml"),
            None => "config.toml".to_owned(),
        },
    }
}

/// Location of the XDG autostart entry of halo: under `$XDG_CONFIG_HOME`,
/// else under `$HOME/.config` (an unset `HOME` counting as empty).
pub open spec fn spec_autostart_desktop_path(
    xdg_config_home: Option<Seq<char>>,
    home: Option<Seq<char>>,
) -> Seq<char> {
    let base = match xdg_config_home {
        Some(x) => x,
        None => spec_join(
            match home {
                Some(h) => h,
                None => Seq::empty(),
            },
            ".config"@,
        ),
    };
    spec_join(base, "autostart/halo.desktop"@)
}

/// Location of the XDG autostart entry, given the values of
/// `XDG_CONFIG_HOME` and `HOME`.
pub fn autostart_desktop_path(xdg_config_home: Option<&str>, home: Option<&str>) -> (r: String)
    ensures
        r@ == spec_autostart_desktop_path(opt_chars(xdg_config_home), opt_chars(home)),
{
    let base = match xdg_config_home {
        Some(x) => x.to_owned(),
        None => match home {
            Some(h) => join_path(h, ".config"),
            None => {
                let e = String::new();
                join_path(e.as_str(), ".config")
            },
        },
    };
    join_path(base.as_str(), "autostart/halo.desktop")
}

/// The XDG desktop entry that starts `exe` at login, hidden from menus.
pub open spec fn spec_desktop_entry(exe: Seq<char>) -> Seq<char> {
    "[Desktop Entry]\nType=Application\nName=halo\nExec="@ + exe
        + "\nX-GNOME-Autostart-enabled=true\nNoDisplay=true\n"@
}

/// Contents of the autostart entry that starts the program at `exe`.
pub fn desktop_entry(exe: &str) -> (r: String)
    ensures
        r@ == spec_desktop_entry(exe@),
{
    let mut s = "[Desktop Entry]\nType=Application\nName=halo\nExec=".to_owned();
    s.append(exe);
    s.append("\nX-GNOME-Autostart-enabled=true\nNoDisplay=true\n");
    s
}

} // verus!

verus! {

/// Joining puts exactly one '/' between a directory and a relative path:
/// none is added after a trailing '/', and an empty directory adds nothing.
pub proof fn lemma_join_one_separator(base: Seq<char>, rel: Seq<char>)
    ensures
        base.len() > 0 && base.last() != '/' ==> spec_join(base, rel) == base + seq!['/'] + rel,
        base.len() > 0 && base.last() == '/' ==> spec_join(base, rel) == base + rel,
        base.len() == 0 ==> spec_join(base, rel) == rel,
        spec_join(base, rel).len() >= rel.len(),
        spec_join(base, rel).subrange(
            spec_join(base, rel).len() - rel.len(),
            spec_join(base, rel).len() as int,
        ) == rel,
{
    let j = spec_join(base, rel);
    assert(j.subrange(j.len() - rel.len(), j.len() as int) =~= rel);
    assert(base.len() == 0 ==> base + rel =~= rel);
}

/// `config.toml` lives in the `halo` directory of `$XDG_CONFIG_HOME` when
/// that is set, whatever `HOME` is; else in `~/.config/halo`; else in the
/// working directory.
pub proof fn lemma_config_path_precedence(x: Seq<char>, h: Seq<char>, h2: Option<Seq<char>>)
    ensures
        spec_config_path(Some(x), h2) == spec_join(x, "halo/config.toml"@),
        spec_config_path(None, Some(h)) == spec_join(h, ".config/halo/config.toml"@),
        spec_config_path(None, None) == "config.toml"@,
        x.len() > 0 && x.last() != '/' ==> spec_config_path(Some(x), h2) == x + seq!['/']
            + "halo/config.toml"@,
        h.len() > 0 && h.last() != '/' ==> spec_config_path(None, Some(h)) == h + seq!['/']
            + ".config/halo/config.toml"@,
{
}

/// The autostart entry is `autostart/halo.desktop` under `$XDG_CONFIG_HOME`
/// when that is set, whatever `HOME` is; else under `$HOME/.config`.
pub proof fn lemma_autostart_path_precedence(x: Seq<char>, h: Seq<char>, h2: Option<Seq<char>>)
    ensures
        spec_autostart_desktop_path(Some(x), h2) == spec_join(x, "autostart/halo.desktop"@),
        spec_autostart_desktop_path(None, Some(h)) == spec_join(
            spec_join(h, ".config"@),
            "autostart/halo.desktop"@,
        ),
        h.len() > 0 && h.last() != '/' ==> spec_autostart_desktop_path(None, Some(h)) == h + seq![
            '/',
        ] + ".config"@ + seq!['/'] + "autostart/halo.desktop"@,
{
    if h.len() > 0 && h.last() != '/' {
        reveal_strlit(".config");
        let b = spec_join(h, ".config"@);
        assert(b == h + seq!['/'] + ".config"@);
        assert(b.last() == 'g');
    }
}

/// The autostart entry starts the program at `exe`: it opens with the
/// "[Desktop Entry]" header and holds the line "Exec=" followed by `exe`.
pub proof fn lemma_desktop_entry_runs_exe(exe: Seq<char>)
    ensures
        spec_desktop_entry(exe).subrange(0, 16) == "[Desktop Entry]\n"@,
        exists|i: int|
            0 <= i && i + exe.len() + 6 <= spec_desktop_entry(exe).len() && #[trigger] spec_desktop_entry(
                exe,
            ).subrange(i, i + exe.len() + 6) == "\nExec="@ + exe,
{
    reveal_strlit("[Desktop Entry]\nType=Application\nName=halo\nExec=");
    reveal_strlit("[Desktop Entry]\n");
    reveal_strlit("\nExec=");
    let d = spec_desktop_entry(exe);
    let head = "[Desktop Entry]\nType=Application\nName=halo\nExec="@;
    assert(d.subrange(0, 16) =~= "[Desktop Entry]\n"@);
    let i = head.len() - 6;
    assert(d.subrange(i, i + exe.len() + 6) =~= "\nExec="@ + exe);
}

} // verus!
