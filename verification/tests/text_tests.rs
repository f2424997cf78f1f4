use lindows_panel::text::{chars_of, is_blank, same_text, string_of_chars, trim, white_space};
use lindows_panel::commands::{custom_command_runs, panel_arg, settings_command};

#[test]
fn white_space_matches_std() {
    for code in 0u32..0x3100 {
        if let Some(c) = char::from_u32(code) {
            assert_eq!(white_space(c), c.is_whitespace(), "char {:x}", code);
        }
    }
    assert!(!white_space('\u{feff}'));
    assert!(!white_space('a'));
}

#[test]
fn trim_matches_std() {
    let cases = ["", "   ", "  ab c ", "\t\nx\r\n", "\u{3000}中文\u{a0}", "no-space", " a", "b "];
    for s in cases {
        assert_eq!(trim(s), s.trim().to_string(), "case {:?}", s);
        assert_eq!(is_blank(s), s.trim().is_empty());
    }
}

#[test]
fn chars_round_trip() {
    let s = "Lindows 控制面板";
    let v = chars_of(s);
    assert_eq!(v.len(), s.chars().count());
    assert_eq!(string_of_chars(&v, 0, v.len()), s.to_string());
    assert_eq!(string_of_chars(&v, 8, v.len()), "控制面板".to_string());
}

#[test]
fn same_text_compares_characters() {
    assert!(same_text("network", "network"));
    assert!(!same_text("network", "networks"));
    assert!(!same_text("", "x"));
    assert!(same_text("", ""));
}

#[test]
fn panel_args() {
    assert_eq!(panel_arg("network"), "network");
    assert_eq!(panel_arg("applications"), "applications");
    assert_eq!(panel_arg("users"), "users");
    assert_eq!(panel_arg("system"), "");
    assert_eq!(panel_arg(""), "");
    assert_eq!(panel_arg("display"), "");
}

#[test]
fn settings_commands() {
    let gnome = "gnome-control-center {panel}";
    assert_eq!(settings_command("network", gnome), Some("gnome-control-center network".to_string()));
    assert_eq!(settings_command("system", gnome), Some("gnome-control-center".to_string()));
    assert_eq!(settings_command("", gnome), Some("gnome-control-center".to_string()));
    assert_eq!(settings_command("users", "kde {panel} {panel}"), Some("kde users users".to_string()));
    assert_eq!(settings_command("applications", "xfce4-settings-manager"), Some("xfce4-settings-manager".to_string()));
    assert_eq!(settings_command("system", "  {panel}  "), None);
    assert_eq!(settings_command("network", ""), None);
    assert_eq!(settings_command("network", "a{panel{panel}}b"), Some("a{panelnetwork}b".to_string()));
    for (p, t) in [("network", "x {panel}y"), ("users", "{panel}{panel}"), ("", " {pan}el ")] {
        let expected = t.replace("{panel}", panel_arg(p)).trim().to_string();
        let got = settings_command(p, t);
        if expected.is_empty() {
            assert_eq!(got, None);
        } else {
            assert_eq!(got, Some(expected));
        }
    }
}

#[test]
fn custom_commands_run_only_when_not_blank() {
    assert!(custom_command_runs("ls -l"));
    assert!(custom_command_runs("  firefox  "));
    assert!(!custom_command_runs(""));
    assert!(!custom_command_runs(" \t\n"));
}
