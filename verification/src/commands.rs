use vstd::prelude::*;

use crate::text::{is_blank, replace_all, replaced, same_text, trim, trimmed, is_white_space, lemma_trimmed_shape};

verus! {

/// The sub-panel argument for a panel type: `network`, `applications` and `users` name
/// their own panel; `system`, the empty type and every other type open the main panel.
pub open spec fn panel_arg_of(panel_type: Seq<char>) -> Seq<char> {
    if panel_type == "network"@ {
        "network"@
    } else if panel_type == "applications"@ {
        "applications"@
    } else if panel_type == "users"@ {
        "users"@
    } else {
        ""@
    }
}

/// The placeholder that a command template holds where the sub-panel goes.
pub open spec fn placeholder() -> Seq<char> {
    "{panel}"@
}

/// The command line for a panel: the template with each placeholder replaced by the panel
/// argument, without leading and trailing white space.
pub open spec fn settings_command_of(panel_type: Seq<char>, template: Seq<char>) -> Seq<char> {
    trimmed(replaced(template, placeholder(), panel_arg_of(panel_type)))
}

/// The sub-panel argument for `panel_type`.
pub fn panel_arg(panel_type: &str) -> (r: &'static str)
    ensures
        r@ == panel_arg_of(panel_type@),
{
    if same_text(panel_type, "network") {
        "network"
    } else if same_text(panel_type, "applications") {
        "applications"
    } else if same_text(panel_type, "users") {
        "users"
    } else {
        ""
    }
}

/// The shell command that opens the settings panel `panel_type` with the command
/// `template`, or `None` when that command is empty, in which case nothing is run.
pub fn settings_command(panel_type: &str, template: &str) -> (r: Option<String>)
    ensures
        match r {
            Some(cmd) => cmd@ == settings_command_of(panel_type@, template@)
                && cmd@.len() > 0,
            None => settings_command_of(panel_type@, template@).len() == 0,
        },
        r matches Some(cmd) ==> !is_white_space(cmd@[0]) && !is_white_space(cmd@.last()),
{
    proof {
        reveal_strlit("{panel}");
    }
    let arg = panel_arg(panel_type);
    let filled = replace_all(template, "{panel}", arg);
    let cmd = trim(filled.as_str());
    proof {
        lemma_trimmed_shape(filled@);
    }
    if cmd.as_str().is_empty() {
        None
    } else {
        Some(cmd)
    }
}

/// Whether a custom command is run: only one that holds something besides white space.
pub fn custom_command_runs(command: &str) -> (b: bool)
    ensures
        b == (trimmed(command@).len() > 0),
{
    !is_blank(command)
}


/// Panel types other than `network`, `applications` and `users` all run the command of the
/// main panel, the one that `system` runs.
pub proof fn law_other_panels_open_main(panel_type: Seq<char>, template: Seq<char>)
    requires
        panel_type != "network"@,
        panel_type != "applications"@,
        panel_type != "users"@,
    ensures
        settings_command_of(panel_type, template) == settings_command_of("system"@, template),
        settings_command_of(""@, template) == settings_command_of("system"@, template),
{
    reveal_strlit("system");
    reveal_strlit("network");
    reveal_strlit("applications");
    reveal_strlit("users");
    reveal_strlit("");
    assert("system"@.len() == 6 && "network"@.len() == 7 && "applications"@.len() == 12
        && "users"@.len() == 5 && ""@.len() == 0);
}

} // verus!
