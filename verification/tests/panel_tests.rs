use lindows_panel::config::{CustomButton, PanelConfig};
use lindows_panel::panel::{grid_padding, grid_row_ends, PanelState};
use lindows_panel::translations::Translations;

fn state() -> PanelState {
    let files = vec![
        ("en".to_string(), r#"{"button_network": "Network Settings"}"#.to_string()),
        ("zh".to_string(), r#"{"button_network": "网络设置"}"#.to_string()),
    ];
    PanelState::new(Translations::from_files(files))
}

#[test]
fn fresh_state() {
    let s = state();
    assert!(!s.show_settings);
    assert!(!s.dark_mode);
    assert_eq!(s.cmd_template, "");
    assert!(s.show_icons);
    assert!(s.custom_buttons.is_empty());
    assert_eq!(s.tr("button_network"), "网络设置");
}

#[test]
fn default_config_values() {
    let c = PanelConfig::default();
    assert!(!c.dark_mode);
    assert_eq!(c.cmd_template, "gnome-control-center {panel}");
    assert!(c.show_icons);
    assert_eq!(c.language, "zh");
    assert!(c.custom_buttons.is_empty());
}

#[test]
fn presets() {
    let mut s = state();
    assert!(s.set_preset("kde"));
    assert_eq!(s.cmd_template, "systemsettings {panel}");
    assert!(s.set_preset("xfce"));
    assert_eq!(s.cmd_template, "xfce4-settings-manager");
    assert!(s.set_preset("gnome"));
    assert_eq!(s.cmd_template, "gnome-control-center {panel}");
    assert!(!s.set_preset("lxde"));
    assert_eq!(s.cmd_template, "gnome-control-center {panel}");
}

#[test]
fn adding_and_removing_buttons() {
    let mut s = state();
    s.new_btn_label = "  Files ".to_string();
    s.new_btn_cmd = " nautilus ~ ".to_string();
    assert!(s.add_custom_button());
    assert_eq!(s.custom_buttons.len(), 1);
    assert_eq!(s.custom_buttons[0].label, "Files");
    assert_eq!(s.custom_buttons[0].command, "nautilus ~");
    assert_eq!(s.new_btn_label, "");
    assert_eq!(s.new_btn_cmd, "");
    s.new_btn_label = "Term".to_string();
    s.new_btn_cmd = "   ".to_string();
    assert!(!s.add_custom_button());
    assert_eq!(s.custom_buttons.len(), 1);
    assert_eq!(s.new_btn_label, "Term");
    assert!(!s.remove_custom_button(1));
    assert!(s.remove_custom_button(0));
    assert!(s.custom_buttons.is_empty());
}

#[test]
fn config_round_trip() {
    let mut s = state();
    let config = PanelConfig {
        dark_mode: true,
        cmd_template: "systemsettings {panel}".to_string(),
        show_icons: false,
        language: "en".to_string(),
        custom_buttons: vec![CustomButton { label: "L".to_string(), command: "c".to_string() }],
    };
    s.apply_config(config);
    assert!(s.dark_mode);
    assert!(!s.show_icons);
    assert_eq!(s.translations.current_lang, "en");
    assert_eq!(s.tr("button_network"), "Network Settings");
    let saved = s.snapshot();
    assert!(saved.dark_mode);
    assert_eq!(saved.cmd_template, "systemsettings {panel}");
    assert_eq!(saved.language, "en");
    assert_eq!(saved.custom_buttons.len(), 1);
    assert_eq!(saved.custom_buttons[0].label, "L");
    s.apply_config(saved);
    assert_eq!(s.translations.current_lang, "en");
    assert_eq!(s.custom_buttons[0].command, "c");
}

#[test]
fn unknown_configured_language_falls_back_to_first() {
    let mut s = state();
    let mut config = PanelConfig::default();
    config.language = "fr".to_string();
    s.apply_config(config);
    assert_eq!(s.translations.current_lang, "en");
}

#[test]
fn language_switch_and_icons() {
    let mut s = state();
    assert!(s.select_language("en"));
    assert!(!s.select_language("en"));
    assert_eq!(s.tr("button_network"), "Network Settings");
    assert_eq!(s.button_text("🌐 ", "button_network"), "🌐 Network Settings");
    assert!(s.set_show_icons(false));
    assert!(!s.set_show_icons(false));
    assert_eq!(s.button_text("🌐 ", "button_network"), "Network Settings");
    assert_eq!(s.with_icon("🔹 ", "Files"), "Files");
}

#[test]
fn grid_layout() {
    assert_eq!(grid_padding(0), 0);
    assert_eq!(grid_padding(1), 3);
    assert_eq!(grid_padding(4), 0);
    assert_eq!(grid_padding(6), 2);
    assert!(grid_row_ends(4));
    assert!(grid_row_ends(8));
    assert!(!grid_row_ends(5));
}

#[test]
fn theme_window_and_template_steps() {
    let mut s = state();
    s.toggle_dark_mode();
    assert!(s.dark_mode);
    s.toggle_dark_mode();
    assert!(!s.dark_mode);
    s.toggle_settings();
    assert!(s.show_settings);
    s.toggle_settings();
    assert!(!s.show_settings);
    s.toggle_settings();
    s.close_settings();
    assert!(!s.show_settings);
    s.set_cmd_template("xdg-open {panel}".to_string());
    assert_eq!(s.cmd_template, "xdg-open {panel}");
}
