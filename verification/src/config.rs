use vstd::prelude::*;

verus! {

/// A button of the user's own: its label and the shell command it runs.
#[derive(Clone, Debug)]
pub struct CustomButton {
    pub label: String,
    pub command: String,
}

impl View for CustomButton {
    type V = (Seq<char>, Seq<char>);

    open spec fn view(&self) -> (Seq<char>, Seq<char>) {
        (self.label@, self.command@)
    }
}

/// The custom buttons, each as its label and command.
pub open spec fn buttons_view(v: Seq<CustomButton>) -> Seq<(Seq<char>, Seq<char>)> {
    v.map_values(|b: CustomButton| b@)
}

/// A copy of the custom buttons.
pub fn copy_buttons(v: &Vec<CustomButton>) -> (r: Vec<CustomButton>)
    ensures
        buttons_view(r@) == buttons_view(v@),
        r@.len() == v@.len(),
        forall|k: int| 0 <= k < v@.len() ==> (#[trigger] r@[k])@ == v@[k]@,
{
    let mut r: Vec<CustomButton> = Vec::new();
    let mut i: usize = 0;
    while i < v.len()
        invariant
            i <= v@.len(),
            buttons_view(r@) == buttons_view(v@.take(i as int)),
        decreases v@.len() - i,
    {
        let b = CustomButton { label: v[i].label.clone(), command: v[i].command.clone() };
        let ghost before = r@;
        assert(b@ == v@[i as int]@);
        r.push(b);
        assert(buttons_view(r@) =~= buttons_view(before).push(b@));
        assert(buttons_view(v@.take(i + 1)) =~= buttons_view(v@.take(i as int)).push(v@[i as int]@));
        i = i + 1;
    }
    assert(v@.take(v@.len() as int) =~= v@);
    assert forall|k: int| 0 <= k < v@.len() implies (#[trigger] r@[k])@ == v@[k]@ by {
        assert(buttons_view(r@)[k] == r@[k]@);
        assert(buttons_view(v@)[k] == v@[k]@);
    }
    r
}

/// The settings that the configuration file keeps besides the sizes: theme, command
/// template, icons, language and custom buttons.
pub struct PanelConfig {
    pub dark_mode: bool,
    pub cmd_template: String,
    pub show_icons: bool,
    pub language: String,
    pub custom_buttons: Vec<CustomButton>,
}

/// A configuration, with strings taken as character sequences.
pub struct ConfigModel {
    pub dark_mode: bool,
    pub cmd_template: Seq<char>,
    pub show_icons: bool,
    pub language: Seq<char>,
    pub buttons: Seq<(Seq<char>, Seq<char>)>,
}

impl View for PanelConfig {
    type V = ConfigModel;

    open spec fn view(&self) -> ConfigModel {
        ConfigModel {
            dark_mode: self.dark_mode,
            cmd_template: self.cmd_template@,
            show_icons: self.show_icons,
            language: self.language@,
            buttons: buttons_view(self.custom_buttons@),
        }
    }
}

/// The command template that opens GNOME's settings.
pub open spec fn gnome_template() -> Seq<char> {
    "gnome-control-center {panel}"@
}

impl Default for PanelConfig {
    /// The configuration used when none can be read: light theme, GNOME's settings,
    /// icons shown, Chinese, no custom buttons.
    fn default() -> (c: Self)
        ensures
            c@ == (ConfigModel {
                dark_mode: false,
                cmd_template: gnome_template(),
                show_icons: true,
                language: "zh"@,
                buttons: Seq::empty(),
            }),
    {
        let c = PanelConfig {
            dark_mode: false,
            cmd_template: "gnome-control-center {panel}".to_owned(),
            show_icons: true,
            language: "zh".to_owned(),
            custom_buttons: Vec::new(),
        };
        assert(buttons_view(c.custom_buttons@) =~= Seq::empty());
        c
    }
}

} // verus!
