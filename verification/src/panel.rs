use vstd::prelude::*;

use crate::config::{buttons_view, copy_buttons, ConfigModel, CustomButton, PanelConfig};
use crate::text::{
    all_white_space, is_blank, is_white_space, law_trim_idempotent, lemma_trimmed_shape, same_text, trim, trimmed,
};
use crate::translations::{settled_lang, translate, Translations};

verus! {

/// The state of the control panel apart from its sizes: whether the settings window is
/// open, the theme, the command template, the icons, the custom buttons, the translations,
/// and the label and command typed for a new button.
pub struct PanelState {
    pub show_settings: bool,
    pub dark_mode: bool,
    pub cmd_template: String,
    pub show_icons: bool,
    pub custom_buttons: Vec<CustomButton>,
    pub translations: Translations,
    pub new_btn_label: String,
    pub new_btn_cmd: String,
}

/// The panel state, with strings taken as character sequences.
pub struct PanelModel {
    pub show_settings: bool,
    pub dark_mode: bool,
    pub cmd_template: Seq<char>,
    pub show_icons: bool,
    pub buttons: Seq<(Seq<char>, Seq<char>)>,
    pub tables: Map<Seq<char>, Map<Seq<char>, Seq<char>>>,
    pub langs: Seq<Seq<char>>,
    pub current_lang: Seq<char>,
    pub new_label: Seq<char>,
    pub new_cmd: Seq<char>,
}

impl View for PanelState {
    type V = PanelModel;

    open spec fn view(&self) -> PanelModel {
        PanelModel {
            show_settings: self.show_settings,
            dark_mode: self.dark_mode,
            cmd_template: self.cmd_template@,
            show_icons: self.show_icons,
            buttons: buttons_view(self.custom_buttons@),
            tables: self.translations.tables(),
            langs: self.translations.langs(),
            current_lang: self.translations.current_lang@,
            new_label: self.new_btn_label@,
            new_cmd: self.new_btn_cmd@,
        }
    }
}

/// The languages offered are those with a table, and the language in use has one.
pub open spec fn languages_ok(m: PanelModel) -> bool {
    &&& forall|l: Seq<char>| #[trigger] m.tables.contains_key(l) <==> m.langs.contains(l)
    &&& m.tables.contains_key(m.current_lang)
}

/// The state after a configuration is read: the configuration's theme, template, icons and
/// buttons, and its language when that has a table.
pub open spec fn applied(m: PanelModel, c: ConfigModel) -> PanelModel {
    PanelModel {
        dark_mode: c.dark_mode,
        cmd_template: c.cmd_template,
        show_icons: c.show_icons,
        buttons: c.buttons,
        current_lang: settled_lang(m.tables, m.langs, m.current_lang, c.language),
        ..m
    }
}

/// The configuration that is saved for a state.
pub open spec fn snapshot_of(m: PanelModel) -> ConfigModel {
    ConfigModel {
        dark_mode: m.dark_mode,
        cmd_template: m.cmd_template,
        show_icons: m.show_icons,
        language: m.current_lang,
        buttons: m.buttons,
    }
}

/// The template that a preset names: `gnome`, `kde` and `xfce` are known.
pub open spec fn preset_template(preset: Seq<char>) -> Option<Seq<char>> {
    if preset == "gnome"@ {
        Some("gnome-control-center {panel}"@)
    } else if preset == "kde"@ {
        Some("systemsettings {panel}"@)
    } else if preset == "xfce"@ {
        Some("xfce4-settings-manager"@)
    } else {
        None
    }
}

/// The state after the typed button is added: when both its label and its command hold
/// more than white space, the trimmed pair is appended and both fields are emptied.
pub open spec fn with_button_added(m: PanelModel) -> PanelModel {
    if trimmed(m.new_label).len() == 0 || trimmed(m.new_cmd).len() == 0 {
        m
    } else {
        PanelModel {
            buttons: m.buttons.push((trimmed(m.new_label), trimmed(m.new_cmd))),
            new_label: Seq::empty(),
            new_cmd: Seq::empty(),
            ..m
        }
    }
}

/// The state after the button at `index` is removed; an index past the end changes nothing.
pub open spec fn with_button_removed(m: PanelModel, index: int) -> PanelModel {
    if 0 <= index < m.buttons.len() {
        PanelModel { buttons: m.buttons.remove(index), ..m }
    } else {
        m
    }
}

impl PanelState {
    /// A fresh state over the given translations: settings closed, light theme, empty
    /// template, icons shown, no custom buttons, nothing typed.
    pub fn new(translations: Translations) -> (s: Self)
        ensures
            s@ == (PanelModel {
                show_settings: false,
                dark_mode: false,
                cmd_template: Seq::empty(),
                show_icons: true,
                buttons: Seq::empty(),
                tables: translations.tables(),
                langs: translations.langs(),
                current_lang: translations.current_lang@,
                new_label: Seq::empty(),
                new_cmd: Seq::empty(),
            }),
    {
        let s = PanelState {
            show_settings: false,
            dark_mode: false,
            cmd_template: String::new(),
            show_icons: true,
            custom_buttons: Vec::new(),
            translations,
            new_btn_label: String::new(),
            new_btn_cmd: String::new(),
        };
        assert(buttons_view(s.custom_buttons@) =~= Seq::empty());
        s
    }

    /// Takes up a configuration that was read.
    pub fn apply_config(&mut self, config: PanelConfig)
        ensures
            final(self)@ == applied(old(self)@, config@),
            languages_ok(old(self)@) ==> languages_ok(final(self)@),
            final(self).dark_mode == config.dark_mode,
            final(self).cmd_template@ == config.cmd_template@,
            final(self).show_icons == config.show_icons,
            buttons_view(final(self).custom_buttons@) == buttons_view(config.custom_buttons@),
            final(self).custom_buttons@.len() == config.custom_buttons@.len(),
            forall|k: int|
                0 <= k < config.custom_buttons@.len() ==> (#[trigger] final(self).custom_buttons@[k])@
                    == config.custom_buttons@[k]@,
            final(self).show_settings == old(self).show_settings,
            final(self).new_btn_label@ == old(self).new_btn_label@,
            final(self).new_btn_cmd@ == old(self).new_btn_cmd@,
            old(self).translations.tables().contains_key(config.language@)
                ==> final(self).translations.current_lang@ == config.language@,
    {
        self.dark_mode = config.dark_mode;
        self.cmd_template = config.cmd_template;
        self.show_icons = config.show_icons;
        self.custom_buttons = config.custom_buttons;
        self.translations.settle_language(config.language.as_str());
    }

    /// The configuration to save for this state.
    pub fn snapshot(&self) -> (c: PanelConfig)
        ensures
            c@ == snapshot_of(self@),
            c.dark_mode == self.dark_mode,
            c.cmd_template@ == self.cmd_template@,
            c.show_icons == self.show_icons,
            c.language@ == self.translations.current_lang@,
            c.custom_buttons@.len() == self.custom_buttons@.len(),
            forall|k: int|
                0 <= k < self.custom_buttons@.len() ==> (#[trigger] c.custom_buttons@[k])@
                    == self.custom_buttons@[k]@,
    {
        PanelConfig {
            dark_mode: self.dark_mode,
            cmd_template: self.cmd_template.clone(),
            show_icons: self.show_icons,
            language: self.translations.current_lang.clone(),
            custom_buttons: copy_buttons(&self.custom_buttons),
        }
    }

    /// The text for `key` in the language in use.
    pub fn tr(&self, key: &str) -> (r: String)
        ensures
            r@ == translate(self@.tables, self@.current_lang, key@),
    {
        self.translations.tr(key)
    }

    /// Sets the command template to the one that `preset` names; says whether it did, in
    /// which case the configuration is to be saved.
    pub fn set_preset(&mut self, preset: &str) -> (known: bool)
        ensures
            known == preset_template(preset@) is Some,
            final(self)@ == (match preset_template(preset@) {
                Some(t) => PanelModel { cmd_template: t, ..old(self)@ },
                None => old(self)@,
            }),
    {
        if same_text(preset, "gnome") {
            self.cmd_template = "gnome-control-center {panel}".to_owned();
            true
        } else if same_text(preset, "kde") {
            self.cmd_template = "systemsettings {panel}".to_owned();
            true
        } else if same_text(preset, "xfce") {
            self.cmd_template = "xfce4-settings-manager".to_owned();
            true
        } else {
            false
        }
    }

    /// Adds the typed button; says whether it did, in which case the configuration is to be
    /// saved.
    pub fn add_custom_button(&mut self) -> (added: bool)
        ensures
            added == (trimmed(old(self)@.new_label).len() > 0 && trimmed(old(self)@.new_cmd).len()
                > 0),
            final(self)@ == with_button_added(old(self)@),
            !added ==> final(self)@ == old(self)@,
            added ==> final(self).custom_buttons@.len() == old(self).custom_buttons@.len() + 1,
            added ==> forall|k: int|
                0 <= k < old(self).custom_buttons@.len() ==> (#[trigger] final(self).custom_buttons@[k])@ == old(self).custom_buttons@[k]@,
            added ==> final(self).custom_buttons@.last().label@ == trimmed(old(self).new_btn_label@),
            added ==> final(self).custom_buttons@.last().command@ == trimmed(old(self).new_btn_cmd@),
            added ==> final(self).custom_buttons@.last().label@.len() > 0,
            added ==> final(self).custom_buttons@.last().command@.len() > 0,
            added ==> final(self).new_btn_label@.len() == 0 && final(self).new_btn_cmd@.len() == 0,
    {
        if is_blank(self.new_btn_label.as_str()) || is_blank(self.new_btn_cmd.as_str()) {
            return false;
        }
        let button = CustomButton {
            label: trim(self.new_btn_label.as_str()),
            command: trim(self.new_btn_cmd.as_str()),
        };
        let ghost before = self.custom_buttons@;
        self.custom_buttons.push(button);
        assert(buttons_view(self.custom_buttons@) =~= buttons_view(before).push(button@));
        self.new_btn_label = String::new();
        self.new_btn_cmd = String::new();
        true
    }

    /// Removes the button at `index`; says whether there was one, in which case the
    /// configuration is to be saved.
    pub fn remove_custom_button(&mut self, index: usize) -> (removed: bool)
        ensures
            removed == (index < old(self)@.buttons.len()),
            final(self)@ == with_button_removed(old(self)@, index as int),
            !removed ==> final(self)@ == old(self)@,
            removed ==> final(self).custom_buttons@.len() == old(self).custom_buttons@.len() - 1,
            removed ==> forall|k: int|
                0 <= k < index ==> (#[trigger] final(self).custom_buttons@[k])@ == old(self).custom_buttons@[k]@,
            removed ==> forall|k: int|
                index <= k < final(self).custom_buttons@.len() ==> (#[trigger] final(self).custom_buttons@[k])@ == old(self).custom_buttons@[k + 1]@,
    {
        if index < self.custom_buttons.len() {
            let ghost before = self.custom_buttons@;
            self.custom_buttons.remove(index);
            assert(buttons_view(self.custom_buttons@) =~= buttons_view(before).remove(
                index as int,
            ));
            true
        } else {
            false
        }
    }

    /// Switches to language `lang` when it differs from the one in use and has a table; says
    /// whether it switched, in which case the configuration is to be saved.
    pub fn select_language(&mut self, lang: &str) -> (switched: bool)
        ensures
            switched == (lang@ != old(self)@.current_lang && old(self)@.tables.contains_key(
                lang@,
            )),
            final(self)@ == (if switched {
                PanelModel { current_lang: lang@, ..old(self)@ }
            } else {
                old(self)@
            }),
            languages_ok(old(self)@) ==> languages_ok(final(self)@),
    {
        self.translations.select_language(lang)
    }

    /// Shows or hides the icons; says whether that changed anything, in which case the
    /// configuration is to be saved.
    pub fn set_show_icons(&mut self, show: bool) -> (changed: bool)
        ensures
            changed == (show != old(self).show_icons),
            final(self)@ == (PanelModel { show_icons: show, ..old(self)@ }),
    {
        if show != self.show_icons {
            self.show_icons = show;
            true
        } else {
            false
        }
    }

    /// Switches between the light and the dark theme; the configuration is then to be saved.
    pub fn toggle_dark_mode(&mut self)
        ensures
            final(self)@ == (PanelModel { dark_mode: !old(self).dark_mode, ..old(self)@ }),
    {
        self.dark_mode = !self.dark_mode;
    }

    /// Opens the settings window when it is closed and closes it when it is open.
    pub fn toggle_settings(&mut self)
        ensures
            final(self)@ == (PanelModel { show_settings: !old(self).show_settings, ..old(self)@ }),
    {
        self.show_settings = !self.show_settings;
    }

    /// Closes the settings window.
    pub fn close_settings(&mut self)
        ensures
            final(self)@ == (PanelModel { show_settings: false, ..old(self)@ }),
    {
        self.show_settings = false;
    }

    /// Takes up an edited command template; the configuration is then to be saved.
    pub fn set_cmd_template(&mut self, template: String)
        ensures
            final(self)@ == (PanelModel { cmd_template: template@, ..old(self)@ }),
    {
        self.cmd_template = template;
    }

    /// A button's text: `icon` in front of `text` when icons are shown, `text` alone when not.
    pub fn with_icon(&self, icon: &str, text: &str) -> (r: String)
        ensures
            r@ == (if self.show_icons {
                icon@ + text@
            } else {
                text@
            }),
    {
        let mut r = if self.show_icons {
            icon.to_owned()
        } else {
            String::new()
        };
        r.append(text);
        r
    }

    /// The text of a fixed button: its translation under `key`, behind `icon` when icons are
    /// shown.
    pub fn button_text(&self, icon: &str, key: &str) -> (r: String)
        ensures
            r@ == (if self.show_icons {
                icon@ + translate(self@.tables, self@.current_lang, key@)
            } else {
                translate(self@.tables, self@.current_lang, key@)
            }),
    {
        let text = self.tr(key);
        self.with_icon(icon, text.as_str())
    }
}

/// Columns of the custom-button grid.
pub const GRID_COLUMNS: usize = 4;

/// Whether the custom-button grid ends a row after its `placed`-th button.
pub fn grid_row_ends(placed: usize) -> (r: bool)
    ensures
        r == (placed % 4 == 0),
{
    placed % GRID_COLUMNS == 0
}

/// The empty cells that fill the last row of the custom-button grid after `count` buttons.
pub fn grid_padding(count: usize) -> (r: usize)
    ensures
        r == (4 - count % 4) % 4,
        r < 4,
        (count + r) % 4 == 0,
{
    (GRID_COLUMNS - count % GRID_COLUMNS) % GRID_COLUMNS
}

/// Saving the configuration of a state and reading it back leaves the state as it was,
/// provided the language in use has a table.
pub proof fn law_config_round_trip(m: PanelModel)
    requires
        m.tables.contains_key(m.current_lang),
    ensures
        applied(m, snapshot_of(m)) == m,
{
}

/// Removing the last button right after adding one gives back the buttons there were.
pub proof fn law_remove_undoes_add(m: PanelModel)
    requires
        trimmed(m.new_label).len() > 0,
        trimmed(m.new_cmd).len() > 0,
    ensures
        with_button_removed(with_button_added(m), m.buttons.len() as int).buttons == m.buttons,
{
    assert(m.buttons.push((trimmed(m.new_label), trimmed(m.new_cmd))).remove(
        m.buttons.len() as int,
    ) =~= m.buttons);
}

/// An added button's label and command are never blank and neither starts nor ends with
/// white space.
pub proof fn law_added_button_trimmed(m: PanelModel)
    requires
        trimmed(m.new_label).len() > 0,
        trimmed(m.new_cmd).len() > 0,
    ensures
        ({
            let b = with_button_added(m).buttons.last();
            &&& b.0.len() > 0 && !is_white_space(b.0[0]) && !is_white_space(b.0.last())
            &&& b.1.len() > 0 && !is_white_space(b.1[0]) && !is_white_space(b.1.last())
            &&& trimmed(b.0) == b.0 && trimmed(b.1) == b.1
        }),
{
    lemma_trimmed_shape(m.new_label);
    lemma_trimmed_shape(m.new_cmd);
    law_trim_idempotent(m.new_label);
    law_trim_idempotent(m.new_cmd);
}

/// Every step of the panel keeps the language in use one that has a table.
pub proof fn law_languages_kept(m: PanelModel, c: ConfigModel, lang: Seq<char>, index: int)
    requires
        languages_ok(m),
    ensures
        languages_ok(applied(m, c)),
        languages_ok(with_button_added(m)),
        languages_ok(with_button_removed(m, index)),
        m.tables.contains_key(lang) ==> languages_ok(PanelModel { current_lang: lang, ..m }),
{
    if !m.tables.contains_key(c.language) && m.langs.len() > 0 {
        assert(m.langs.contains(m.langs[0]));
    }
}


/// Removing the button at an index inside the list takes out exactly that button: one fewer
/// button, those before it unchanged, those after it moved one place up, and nothing else
/// changed; an index past the end changes nothing.
pub proof fn law_remove_takes_out_index(m: PanelModel, index: int)
    ensures
        0 <= index < m.buttons.len() ==> {
            let r = with_button_removed(m, index);
            &&& r.buttons.len() == m.buttons.len() - 1
            &&& forall|k: int| 0 <= k < index ==> #[trigger] r.buttons[k] == m.buttons[k]
            &&& forall|k: int|
                index <= k < r.buttons.len() ==> #[trigger] r.buttons[k] == m.buttons[k + 1]
            &&& r == PanelModel { buttons: r.buttons, ..m }
        },
        !(0 <= index < m.buttons.len()) ==> with_button_removed(m, index) == m,
{
}

/// The saved configuration holds every setting of the state as it is.
pub proof fn law_snapshot_keeps_settings(m: PanelModel)
    ensures
        snapshot_of(m).dark_mode == m.dark_mode,
        snapshot_of(m).cmd_template == m.cmd_template,
        snapshot_of(m).show_icons == m.show_icons,
        snapshot_of(m).language == m.current_lang,
        snapshot_of(m).buttons == m.buttons,
{
}

/// Reading a configuration takes its theme, template, icons and buttons whatever the state
/// held before, takes its language when that has a table, and leaves the rest alone.
pub proof fn law_applied_takes_settings(m: PanelModel, c: ConfigModel)
    ensures
        applied(m, c).dark_mode == c.dark_mode,
        applied(m, c).cmd_template == c.cmd_template,
        applied(m, c).show_icons == c.show_icons,
        applied(m, c).buttons == c.buttons,
        m.tables.contains_key(c.language) ==> applied(m, c).current_lang == c.language,
        applied(m, c).show_settings == m.show_settings,
        applied(m, c).tables == m.tables,
        applied(m, c).langs == m.langs,
        applied(m, c).new_label == m.new_label,
        applied(m, c).new_cmd == m.new_cmd,
{
}

/// When the typed label or command is blank, adding changes nothing; otherwise exactly one
/// button is appended, holding the trimmed label and command, both non-empty, and the typed
/// fields are emptied.
pub proof fn law_add_needs_label_and_command(m: PanelModel)
    ensures
        (all_white_space(m.new_label) || all_white_space(m.new_cmd)) ==> with_button_added(m)
            == m,
        !all_white_space(m.new_label) && !all_white_space(m.new_cmd) ==> {
            let r = with_button_added(m);
            &&& r.buttons.len() == m.buttons.len() + 1
            &&& forall|k: int| 0 <= k < m.buttons.len() ==> #[trigger] r.buttons[k] == m.buttons[k]
            &&& r.buttons.last() == (trimmed(m.new_label), trimmed(m.new_cmd))
            &&& r.buttons.last().0.len() > 0 && r.buttons.last().1.len() > 0
            &&& r.new_label.len() == 0 && r.new_cmd.len() == 0
            &&& r == PanelModel { buttons: r.buttons, new_label: r.new_label, new_cmd: r.new_cmd, ..m }
        },
{
    lemma_trimmed_shape(m.new_label);
    lemma_trimmed_shape(m.new_cmd);
}

/// Whether every button has a label and a command that are not blank.
pub open spec fn buttons_filled(buttons: Seq<(Seq<char>, Seq<char>)>) -> bool {
    forall|k: int|
        0 <= k < buttons.len() ==> !all_white_space((#[trigger] buttons[k]).0) && !all_white_space(
            buttons[k].1,
        )
}

/// Adding and removing buttons keep every button's label and command non-blank.
pub proof fn law_buttons_stay_filled(m: PanelModel, index: int)
    requires
        buttons_filled(m.buttons),
    ensures
        buttons_filled(with_button_added(m).buttons),
        buttons_filled(with_button_removed(m, index).buttons),
{
    let r = with_button_added(m);
    if !all_white_space(m.new_label) && !all_white_space(m.new_cmd) {
        lemma_trimmed_shape(m.new_label);
        lemma_trimmed_shape(m.new_cmd);
        lemma_trimmed_shape(trimmed(m.new_label));
        lemma_trimmed_shape(trimmed(m.new_cmd));
        law_trim_idempotent(m.new_label);
        law_trim_idempotent(m.new_cmd);
        assert forall|k: int| 0 <= k < r.buttons.len() implies !all_white_space(
            (#[trigger] r.buttons[k]).0,
        ) && !all_white_space(r.buttons[k].1) by {
            if k < m.buttons.len() {
                assert(r.buttons[k] == m.buttons[k]);
            }
        }
    } else {
        lemma_trimmed_shape(m.new_label);
        lemma_trimmed_shape(m.new_cmd);
    }
    let q = with_button_removed(m, index);
    if 0 <= index < m.buttons.len() {
        assert forall|k: int| 0 <= k < q.buttons.len() implies !all_white_space(
            (#[trigger] q.buttons[k]).0,
        ) && !all_white_space(q.buttons[k].1) by {
            if k < index {
                assert(q.buttons[k] == m.buttons[k]);
            } else {
                assert(q.buttons[k] == m.buttons[k + 1]);
            }
        }
    }
}

} // verus!
